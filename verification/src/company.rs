//! Companies and the people to reach at them.

use crate::base::{new_id, AuditMetadata, Embeddable, Entity, Error};
use crate::text::{contains, contains_seq, is_blank, push_text, trimmed};
use crate::validation::{digits_of, numeric_only, Validate};
use vstd::prelude::*;

verus! {

/// What a company is to the business.
#[derive(Debug, Clone, Copy, PartialEq, Eq, Structural)]
pub enum CompanyType {
    Cliente,
    Fornecedor,
    Parceiro,
    Transportadora,
    Outros,
}

impl CompanyType {
    /// The name of the type as written in code.
    pub open spec fn name(&self) -> Seq<char> {
        match self {
            CompanyType::Cliente => "Cliente"@,
            CompanyType::Fornecedor => "Fornecedor"@,
            CompanyType::Parceiro => "Parceiro"@,
            CompanyType::Transportadora => "Transportadora"@,
            CompanyType::Outros => "Outros"@,
        }
    }

    /// The name of the type in lower case.
    pub open spec fn tag(&self) -> Seq<char> {
        match self {
            CompanyType::Cliente => "cliente"@,
            CompanyType::Fornecedor => "fornecedor"@,
            CompanyType::Parceiro => "parceiro"@,
            CompanyType::Transportadora => "transportadora"@,
            CompanyType::Outros => "outros"@,
        }
    }

    /// The name of the type as written in code.
    pub fn variant_name(&self) -> (r: &'static str)
        ensures
            r@ == self.name(),
    {
        match self {
            CompanyType::Cliente => "Cliente",
            CompanyType::Fornecedor => "Fornecedor",
            CompanyType::Parceiro => "Parceiro",
            CompanyType::Transportadora => "Transportadora",
            CompanyType::Outros => "Outros",
        }
    }

    /// The name of the type in lower case.
    pub fn lowercase_name(&self) -> (r: &'static str)
        ensures
            r@ == self.tag(),
    {
        match self {
            CompanyType::Cliente => "cliente",
            CompanyType::Fornecedor => "fornecedor",
            CompanyType::Parceiro => "parceiro",
            CompanyType::Transportadora => "transportadora",
            CompanyType::Outros => "outros",
        }
    }
}

/// A client, supplier, partner or carrier.
#[derive(Debug, Clone)]
pub struct Company {
    pub id: String,
    pub nome: String,
    pub nome_fantasia: Option<String>,
    pub cnpj: Option<String>,
    pub cpf: Option<String>,
    pub inscricao_estadual: Option<String>,
    pub tipo: CompanyType,
    pub endereco: Option<String>,
    pub numero: Option<String>,
    pub complemento: Option<String>,
    pub bairro: Option<String>,
    pub cidade: String,
    pub estado: String,
    pub cep: Option<String>,
    pub telefone: Option<String>,
    pub celular: Option<String>,
    pub email: Option<String>,
    pub site: Option<String>,
    pub observacoes: Option<String>,
    pub ativo: bool,
    pub metadata: AuditMetadata,
}

/// The text that an optional field holds, or the empty text.
pub open spec fn text_or_empty(o: Option<String>) -> Seq<char> {
    match o {
        Some(s) => s@,
        None => Seq::empty(),
    }
}

/// A CNPJ in the simple sense: fourteen digits, whatever stands between
/// them.
pub open spec fn has_cnpj_digits(s: Seq<char>) -> bool {
    numeric_only(s).len() == 14
}

/// A CPF in the simple sense: eleven digits, whatever stands between
/// them.
pub open spec fn has_cpf_digits(s: Seq<char>) -> bool {
    numeric_only(s).len() == 11
}

impl Company {
    /// The company holds the given name, place and type, is active, and
    /// has nothing else yet.
    pub open spec fn is_new(
        &self,
        nome: Seq<char>,
        cidade: Seq<char>,
        estado: Seq<char>,
        tipo: CompanyType,
    ) -> bool {
        &&& self.nome@ == nome
        &&& self.nome_fantasia is None
        &&& self.cnpj is None
        &&& self.cpf is None
        &&& self.inscricao_estadual is None
        &&& self.tipo == tipo
        &&& self.endereco is None
        &&& self.numero is None
        &&& self.complemento is None
        &&& self.bairro is None
        &&& self.cidade@ == cidade
        &&& self.estado@ == estado
        &&& self.cep is None
        &&& self.telefone is None
        &&& self.celular is None
        &&& self.email is None
        &&& self.site is None
        &&& self.observacoes is None
        &&& self.ativo
        &&& self.metadata.is_fresh_at(self.metadata.created_at)
    }

    /// `self` is `before` but for its CNPJ, telephone and e-mail.
    pub open spec fn same_but_for_contacts(&self, before: Company) -> bool {
        &&& self.id == before.id
        &&& self.nome == before.nome
        &&& self.nome_fantasia == before.nome_fantasia
        &&& self.cpf == before.cpf
        &&& self.inscricao_estadual == before.inscricao_estadual
        &&& self.tipo == before.tipo
        &&& self.endereco == before.endereco
        &&& self.numero == before.numero
        &&& self.complemento == before.complemento
        &&& self.bairro == before.bairro
        &&& self.cidade == before.cidade
        &&& self.estado == before.estado
        &&& self.cep == before.cep
        &&& self.celular == before.celular
        &&& self.site == before.site
        &&& self.observacoes == before.observacoes
        &&& self.ativo == before.ativo
        &&& self.metadata == before.metadata
    }

    /// A new company with an identifier of its own, made at this moment.
    pub fn new(nome: String, cidade: String, estado: String, tipo: CompanyType) -> (r: Company)
        ensures
            r.is_new(nome@, cidade@, estado@, tipo),
    {
        Company {
            id: new_id(),
            nome,
            nome_fantasia: None,
            cnpj: None,
            cpf: None,
            inscricao_estadual: None,
            tipo,
            endereco: None,
            numero: None,
            complemento: None,
            bairro: None,
            cidade,
            estado,
            cep: None,
            telefone: None,
            celular: None,
            email: None,
            site: None,
            observacoes: None,
            ativo: true,
            metadata: AuditMetadata::now(),
        }
    }

    /// The company with the given CNPJ.
    pub fn with_cnpj(self, cnpj: String) -> (r: Company)
        ensures
            r.cnpj == Some(cnpj),
            r.telefone == self.telefone,
            r.email == self.email,
            r.same_but_for_contacts(self),
    {
        let mut r = self;
        r.cnpj = Some(cnpj);
        r
    }

    /// The company with the given telephone number.
    pub fn with_telefone(self, telefone: String) -> (r: Company)
        ensures
            r.telefone == Some(telefone),
            r.cnpj == self.cnpj,
            r.email == self.email,
            r.same_but_for_contacts(self),
    {
        let mut r = self;
        r.telefone = Some(telefone);
        r
    }

    /// The company with the given e-mail address.
    pub fn with_email(self, email: String) -> (r: Company)
        ensures
            r.email == Some(email),
            r.cnpj == self.cnpj,
            r.telefone == self.telefone,
            r.same_but_for_contacts(self),
    {
        let mut r = self;
        r.email = Some(email);
        r
    }

    /// Whether a text holds the fourteen digits of a CNPJ.
    pub fn validate_cnpj(cnpj: &str) -> (b: bool)
        ensures
            b == has_cnpj_digits(cnpj@),
    {
        digits_of(cnpj).len() == 14
    }

    /// Whether a text holds the eleven digits of a CPF.
    pub fn validate_cpf(cpf: &str) -> (b: bool)
        ensures
            b == has_cpf_digits(cpf@),
    {
        digits_of(cpf).len() == 11
    }

    /// The company as one line of text: name, trade name, CNPJ, city,
    /// state, telephone and e-mail, a space between each two.
    pub open spec fn embedding_text(&self) -> Seq<char> {
        self.nome@ + " "@ + text_or_empty(self.nome_fantasia) + " "@ + text_or_empty(self.cnpj)
            + " "@ + self.cidade@ + " "@ + self.estado@ + " "@ + text_or_empty(self.telefone)
            + " "@ + text_or_empty(self.email)
    }

    /// The fields by which the company is looked for: name, city and
    /// state, then trade name and CNPJ where it has them.
    pub open spec fn search_fields(&self) -> Seq<Seq<char>> {
        seq![self.nome@, self.cidade@, self.estado@] + (match self.nome_fantasia {
            Some(s) => seq![s@],
            None => seq![],
        }) + (match self.cnpj {
            Some(s) => seq![s@],
            None => seq![],
        })
    }
}

fn push_optional(r: &mut String, o: &Option<String>)
    ensures
        final(r)@ == old(r)@ + text_or_empty(*o),
{
    match o {
        Some(s) => {
            push_text(r, s.as_str());
        },
        None => {
            assert(r@ + Seq::<char>::empty() =~= r@);
        },
    }
}

impl Entity for Company {
    /// Name, city and state are not blank, and a CNPJ or a CPF, where
    /// there is one, has the digits it needs.
    open spec fn valid(&self) -> bool {
        &&& trimmed(self.nome@).len() > 0
        &&& trimmed(self.cidade@).len() > 0
        &&& trimmed(self.estado@).len() > 0
        &&& self.cnpj matches Some(cnpj) ==> has_cnpj_digits(cnpj@)
        &&& self.cpf matches Some(cpf) ==> has_cpf_digits(cpf@)
    }

    open spec fn id_text(&self) -> Seq<char> {
        self.id@
    }

    open spec fn kind(&self) -> Seq<char> {
        "company"@
    }

    fn id(&self) -> (r: &String) {
        &self.id
    }

    fn entity_type(&self) -> (r: &str) {
        "company"
    }

    fn validate(&self) -> (r: Result<(), Error>) {
        if is_blank(self.nome.as_str()) {
            return Err(Error::Validation("Nome não pode ser vazio".to_owned()));
        }
        if is_blank(self.cidade.as_str()) {
            return Err(Error::Validation("Cidade não pode ser vazia".to_owned()));
        }
        if is_blank(self.estado.as_str()) {
            return Err(Error::Validation("Estado não pode ser vazio".to_owned()));
        }
        match &self.cnpj {
            Some(cnpj) => {
                if !Company::validate_cnpj(cnpj.as_str()) {
                    return Err(Error::Validation("CNPJ inválido".to_owned()));
                }
            },
            None => {},
        }
        match &self.cpf {
            Some(cpf) => {
                if !Company::validate_cpf(cpf.as_str()) {
                    return Err(Error::Validation("CPF inválido".to_owned()));
                }
            },
            None => {},
        }
        Ok(())
    }
}

impl Embeddable for Company {
    fn to_embedding_text(&self) -> (r: String)
        ensures
            r@ == self.embedding_text(),
    {
        let mut r = String::new();
        push_text(&mut r, self.nome.as_str());
        push_text(&mut r, " ");
        push_optional(&mut r, &self.nome_fantasia);
        push_text(&mut r, " ");
        push_optional(&mut r, &self.cnpj);
        push_text(&mut r, " ");
        push_text(&mut r, self.cidade.as_str());
        push_text(&mut r, " ");
        push_text(&mut r, self.estado.as_str());
        push_text(&mut r, " ");
        push_optional(&mut r, &self.telefone);
        push_text(&mut r, " ");
        push_optional(&mut r, &self.email);
        assert(r@ =~= self.embedding_text());
        r
    }

    fn searchable_fields(&self) -> (r: Vec<String>)
        ensures
            r.deep_view() == self.search_fields(),
    {
        let mut fields: Vec<String> = Vec::new();
        fields.push(self.nome.clone());
        fields.push(self.cidade.clone());
        fields.push(self.estado.clone());
        match &self.nome_fantasia {
            Some(s) => {
                fields.push(s.clone());
            },
            None => {},
        }
        match &self.cnpj {
            Some(s) => {
                fields.push(s.clone());
            },
            None => {},
        }
        assert(fields.deep_view() =~= self.search_fields());
        fields
    }
}

/// A person to reach at a company.
#[derive(Debug, Clone)]
pub struct Contact {
    pub id: String,
    pub nome: String,
    pub cargo: Option<String>,
    pub empresa_id: String,
    pub telefone: Option<String>,
    pub celular: Option<String>,
    pub email: Option<String>,
    pub whatsapp: Option<String>,
    pub principal: bool,
    pub ativo: bool,
    pub observacoes: Option<String>,
    pub metadata: AuditMetadata,
}

impl Contact {
    /// The contact holds the given name and company, is active, is not
    /// the company's main contact, and has nothing else yet.
    pub open spec fn is_new(&self, nome: Seq<char>, empresa_id: Seq<char>) -> bool {
        &&& self.nome@ == nome
        &&& self.cargo is None
        &&& self.empresa_id@ == empresa_id
        &&& self.telefone is None
        &&& self.celular is None
        &&& self.email is None
        &&& self.whatsapp is None
        &&& !self.principal
        &&& self.ativo
        &&& self.observacoes is None
        &&& self.metadata.is_fresh_at(self.metadata.created_at)
    }

    /// A new contact with an identifier of its own, made at this moment.
    pub fn new(nome: String, empresa_id: String) -> (r: Contact)
        ensures
            r.is_new(nome@, empresa_id@),
    {
        Contact {
            id: new_id(),
            nome,
            cargo: None,
            empresa_id,
            telefone: None,
            celular: None,
            email: None,
            whatsapp: None,
            principal: false,
            ativo: true,
            observacoes: None,
            metadata: AuditMetadata::now(),
        }
    }
}

impl Entity for Contact {
    /// The name is not blank.
    open spec fn valid(&self) -> bool {
        trimmed(self.nome@).len() > 0
    }

    open spec fn id_text(&self) -> Seq<char> {
        self.id@
    }

    open spec fn kind(&self) -> Seq<char> {
        "contact"@
    }

    fn id(&self) -> (r: &String) {
        &self.id
    }

    fn entity_type(&self) -> (r: &str) {
        "contact"
    }

    fn validate(&self) -> (r: Result<(), Error>) {
        if is_blank(self.nome.as_str()) {
            return Err(Error::Validation("Nome não pode ser vazio".to_owned()));
        }
        Ok(())
    }
}


/// An optional field holds nothing, or a text that meets `accepts`.
pub open spec fn empty_or(o: Option<String>, accepts: spec_fn(Seq<char>) -> bool) -> bool {
    match o {
        Some(s) => s@.len() == 0 || accepts(s@),
        None => true,
    }
}

impl Validate for Company {
    /// The name is not blank; a CNPJ, where one is given, has fourteen
    /// digits; an e-mail address, where one is given, holds an `@`; a
    /// telephone number, where one is given, has ten or eleven digits.
    open spec fn acceptable(&self) -> bool {
        &&& trimmed(self.nome@).len() > 0
        &&& empty_or(self.cnpj, |s: Seq<char>| numeric_only(s).len() == 14)
        &&& empty_or(self.email, |s: Seq<char>| contains_seq(s, "@"@))
        &&& empty_or(self.telefone, |s: Seq<char>| 10 <= numeric_only(s).len() <= 11)
    }

    fn validate(&self) -> (r: Result<(), Error>) {
        if is_blank(self.nome.as_str()) {
            return Err(Error::Validation("Company name cannot be empty".to_owned()));
        }
        match &self.cnpj {
            Some(cnpj) => {
                if !cnpj.as_str().is_empty() && digits_of(cnpj.as_str()).len() != 14 {
                    return Err(Error::Validation("CNPJ must have 14 digits".to_owned()));
                }
            },
            None => {},
        }
        match &self.email {
            Some(email) => {
                if !email.as_str().is_empty() && !contains(email.as_str(), "@") {
                    return Err(Error::Validation("Invalid email format".to_owned()));
                }
            },
            None => {},
        }
        match &self.telefone {
            Some(telefone) => {
                if !telefone.as_str().is_empty() {
                    let digits = digits_of(telefone.as_str());
                    if digits.len() < 10 || digits.len() > 11 {
                        return Err(
                            Error::Validation("Phone number must have 10 or 11 digits".to_owned()),
                        );
                    }
                }
            },
            None => {},
        }
        Ok(())
    }
}

} // verus!
