//! Checks of the identifiers and addresses that records carry.

use crate::base::Error;
use crate::text::{chars_of, is_numeric_char};
use vstd::prelude::*;

verus! {

/// A record that can say whether it is fit to be stored.
pub trait Validate {
    /// The record is fit to be stored.
    spec fn acceptable(&self) -> bool;

    /// Accepts the record exactly where it is fit to be stored.
    fn validate(&self) -> (r: Result<(), Error>)
        ensures
            r is Ok <==> self.acceptable(),
            r matches Err(e) ==> e is Validation,
    ;
}

/// The numeric characters of `s`, in order.
pub open spec fn numeric_only(s: Seq<char>) -> Seq<char>
    decreases s.len(),
{
    if s.len() == 0 {
        s
    } else if is_numeric_char(s.last()) {
        numeric_only(s.drop_last()).push(s.last())
    } else {
        numeric_only(s.drop_last())
    }
}

/// Every character of `s` is the same.
pub open spec fn all_same(s: Seq<char>) -> bool {
    forall|i: int| 0 <= i < s.len() ==> #[trigger] s[i] == s[0]
}

/// The number of times that `c` occurs in `s`.
pub open spec fn count_of(s: Seq<char>, c: char) -> nat
    decreases s.len(),
{
    if s.len() == 0 {
        0
    } else if s.last() == c {
        count_of(s.drop_last(), c) + 1
    } else {
        count_of(s.drop_last(), c)
    }
}

/// A CPF: eleven digits that are not all the same.
pub open spec fn is_cpf(s: Seq<char>) -> bool {
    numeric_only(s).len() == 11 && !all_same(numeric_only(s))
}

/// A CNPJ: fourteen digits that are not all the same.
pub open spec fn is_cnpj(s: Seq<char>) -> bool {
    numeric_only(s).len() == 14 && !all_same(numeric_only(s))
}

/// A CEP: eight digits.
pub open spec fn is_cep(s: Seq<char>) -> bool {
    numeric_only(s).len() == 8
}

/// A telephone number: ten or eleven digits.
pub open spec fn is_phone(s: Seq<char>) -> bool {
    10 <= numeric_only(s).len() <= 11
}

/// An e-mail address: one `@` with something on either side, and a dot
/// somewhere.
pub open spec fn is_email(s: Seq<char>) -> bool {
    &&& count_of(s, '@') == 1
    &&& count_of(s, '.') >= 1
    &&& s[0] != '@'
    &&& s.last() != '@'
}

/// The numeric characters of `s`, in order.
pub fn digits_of(s: &str) -> (r: Vec<char>)
    ensures
        r@ == numeric_only(s@),
{
    let v = chars_of(s);
    let mut r: Vec<char> = Vec::new();
    let mut i: usize = 0;
    while i < v.len()
        invariant
            i <= v.len(),
            v@ == s@,
            r@ == numeric_only(v@.take(i as int)),
        decreases v.len() - i,
    {
        proof {
            assert(v@.take(i + 1).drop_last() =~= v@.take(i as int));
        }
        if v[i].is_numeric() {
            r.push(v[i]);
        }
        i += 1;
    }
    assert(v@.take(v.len() as int) =~= v@);
    r
}

/// Whether every character of `v` is the same.
fn is_uniform(v: &Vec<char>) -> (b: bool)
    ensures
        b == all_same(v@),
{
    let mut i: usize = 0;
    while i < v.len()
        invariant
            i <= v.len(),
            forall|k: int| 0 <= k < i ==> #[trigger] v@[k] == v@[0],
        decreases v.len() - i,
    {
        if v[i] != v[0] {
            return false;
        }
        i += 1;
    }
    true
}

/// The number of times that `c` occurs in `v`, counted up to
/// `usize::MAX`.
fn count_char(v: &Vec<char>, c: char) -> (n: usize)
    ensures
        n == count_of(v@, c),
{
    let mut n: usize = 0;
    let mut i: usize = 0;
    while i < v.len()
        invariant
            i <= v.len(),
            n <= i,
            n == count_of(v@.take(i as int), c),
        decreases v.len() - i,
    {
        proof {
            assert(v@.take(i + 1).drop_last() =~= v@.take(i as int));
        }
        if v[i] == c {
            n += 1;
        }
        i += 1;
    }
    assert(v@.take(v.len() as int) =~= v@);
    n
}

fn invalid(message: &str) -> (r: Result<(), Error>)
    ensures
        r matches Err(e) && e is Validation && e.message() == message@,
{
    Err(Error::Validation(message.to_owned()))
}

/// Accepts a CPF: eleven digits, not all the same, whatever stands
/// between them.
pub fn validate_cpf(cpf: &str) -> (r: Result<(), Error>)
    ensures
        r is Ok <==> is_cpf(cpf@),
        r matches Err(e) ==> e is Validation,
{
    let digits = digits_of(cpf);
    if digits.len() != 11 {
        return invalid("CPF must have 11 digits");
    }
    if is_uniform(&digits) {
        return invalid("Invalid CPF");
    }
    Ok(())
}

/// Accepts a CNPJ: fourteen digits, not all the same, whatever stands
/// between them.
pub fn validate_cnpj(cnpj: &str) -> (r: Result<(), Error>)
    ensures
        r is Ok <==> is_cnpj(cnpj@),
        r matches Err(e) ==> e is Validation,
{
    let digits = digits_of(cnpj);
    if digits.len() != 14 {
        return invalid("CNPJ must have 14 digits");
    }
    if is_uniform(&digits) {
        return invalid("Invalid CNPJ");
    }
    Ok(())
}

/// Accepts a CEP: eight digits, whatever stands between them.
pub fn validate_cep(cep: &str) -> (r: Result<(), Error>)
    ensures
        r is Ok <==> is_cep(cep@),
        r matches Err(e) ==> e is Validation,
{
    let digits = digits_of(cep);
    if digits.len() != 8 {
        return invalid("CEP must have 8 digits");
    }
    Ok(())
}

/// Accepts a telephone number: ten or eleven digits, whatever stands
/// between them.
pub fn validate_phone(phone: &str) -> (r: Result<(), Error>)
    ensures
        r is Ok <==> is_phone(phone@),
        r matches Err(e) ==> e is Validation,
{
    let digits = digits_of(phone);
    if digits.len() < 10 || digits.len() > 11 {
        return invalid("Phone must have 10 or 11 digits");
    }
    Ok(())
}

/// Accepts an e-mail address: one `@` with something on either side,
/// and a dot somewhere.
pub fn validate_email(email: &str) -> (r: Result<(), Error>)
    ensures
        r is Ok <==> is_email(email@),
        r matches Err(e) ==> e is Validation,
{
    let v = chars_of(email);
    let ats = count_char(&v, '@');
    let dots = count_char(&v, '.');
    if ats == 0 || dots == 0 {
        return invalid("Invalid email format");
    }
    if ats != 1 || v[0] == '@' || v[v.len() - 1] == '@' {
        return invalid("Invalid email format");
    }
    Ok(())
}

} // verus!
