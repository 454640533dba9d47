//! Transport routes.

use crate::base::{new_id, AuditMetadata, Entity, Error};
use crate::text::{is_blank, trimmed};
use vstd::prelude::*;

verus! {

/// A named route through the cities of one region. Distances, times and
/// costs are held as plain decimal text.
#[derive(Debug, Clone)]
pub struct Route {
    pub id: String,
    pub nome: String,
    pub regiao: String,
    pub cidades: Vec<String>,
    pub distancia_km: Option<String>,
    pub tempo_estimado_horas: Option<String>,
    pub pedagios: Option<i32>,
    pub custo_pedagio: Option<String>,
    pub ativo: bool,
    pub observacoes: Option<String>,
    pub metadata: AuditMetadata,
}

impl Route {
    /// The cities of the route, in the order in which they were added.
    pub open spec fn cities(&self) -> Seq<Seq<char>> {
        self.cidades.deep_view()
    }

    /// No city is listed twice.
    pub open spec fn wf(&self) -> bool {
        self.cities().no_duplicates()
    }

    /// The route holds the given name and region, is active, and has no
    /// city or measure yet.
    pub open spec fn is_new(&self, nome: Seq<char>, regiao: Seq<char>) -> bool {
        &&& self.nome@ == nome
        &&& self.regiao@ == regiao
        &&& self.cidades@.len() == 0
        &&& self.distancia_km is None
        &&& self.tempo_estimado_horas is None
        &&& self.pedagios is None
        &&& self.custo_pedagio is None
        &&& self.ativo
        &&& self.observacoes is None
        &&& self.metadata.is_fresh_at(self.metadata.created_at)
    }

    /// A new route with an identifier of its own, made at this moment.
    pub fn new(nome: String, regiao: String) -> (r: Route)
        ensures
            r.is_new(nome@, regiao@),
            r.wf(),
    {
        Route {
            id: new_id(),
            nome,
            regiao,
            cidades: Vec::new(),
            distancia_km: None,
            tempo_estimado_horas: None,
            pedagios: None,
            custo_pedagio: None,
            ativo: true,
            observacoes: None,
            metadata: AuditMetadata::now(),
        }
    }

    /// Whether the route lists `cidade`.
    pub fn has_cidade(&self, cidade: &String) -> (b: bool)
        ensures
            b == self.cities().contains(cidade@),
    {
        let mut i: usize = 0;
        while i < self.cidades.len()
            invariant
                i <= self.cidades.len(),
                forall|k: int| 0 <= k < i ==> self.cities()[k] != cidade@,
            decreases self.cidades.len() - i,
        {
            if self.cidades[i] == *cidade {
                assert(self.cities()[i as int] == cidade@);
                return true;
            }
            i += 1;
        }
        false
    }

    /// Adds a city at the end of the route, unless the route lists it
    /// already.
    pub fn add_cidade(&mut self, cidade: String)
        ensures
            final(self).cities() == (if old(self).cities().contains(cidade@) {
                old(self).cities()
            } else {
                old(self).cities().push(cidade@)
            }),
            old(self).wf() ==> final(self).wf(),
            final(self).id == old(self).id,
            final(self).nome == old(self).nome,
            final(self).regiao == old(self).regiao,
            final(self).distancia_km == old(self).distancia_km,
            final(self).tempo_estimado_horas == old(self).tempo_estimado_horas,
            final(self).pedagios == old(self).pedagios,
            final(self).custo_pedagio == old(self).custo_pedagio,
            final(self).ativo == old(self).ativo,
            final(self).observacoes == old(self).observacoes,
            final(self).metadata == old(self).metadata,
    {
        if !self.has_cidade(&cidade) {
            let ghost before = self.cities();
            self.cidades.push(cidade);
            proof {
                assert(self.cities() =~= before.push(cidade@));
                if before.no_duplicates() {
                    assert forall|i: int, j: int|
                        0 <= i < self.cities().len() && 0 <= j < self.cities().len() && i
                            != j implies self.cities()[i] != self.cities()[j] by {
                        if i < before.len() && j < before.len() {
                            assert(before[i] != before[j]);
                        } else if i < before.len() {
                            assert(before.contains(before[i]));
                        } else {
                            assert(before.contains(before[j]));
                        }
                    }
                }
            }
        }
    }
}

impl Entity for Route {
    /// The name is not blank.
    open spec fn valid(&self) -> bool {
        trimmed(self.nome@).len() > 0
    }

    open spec fn id_text(&self) -> Seq<char> {
        self.id@
    }

    open spec fn kind(&self) -> Seq<char> {
        "route"@
    }

    fn id(&self) -> (r: &String) {
        &self.id
    }

    fn entity_type(&self) -> (r: &str) {
        "route"
    }

    fn validate(&self) -> (r: Result<(), Error>) {
        if is_blank(self.nome.as_str()) {
            return Err(Error::Validation("Nome não pode ser vazio".to_owned()));
        }
        Ok(())
    }
}

} // verus!
