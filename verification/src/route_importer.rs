//! Routes out of the routes export, in which every cell that is not
//! empty names a city and the column tells the region.

use crate::base::{Entity, Error};
use crate::importers::Importer;
use crate::route::Route;
use crate::tabular::read_export;
use crate::text::{
    chars_of, contains, contains_seq, ends_with, ends_with_seq, is_space,
    law_text_with_a_head_is_not_blank, push_text, string_of_range, trim_bounds, trimmed,
};
use vstd::prelude::*;

verus! {

/// Reads routes out of the routes export.
pub struct RouteImporter {}

/// The region that the cities of a column belong to: columns come in
/// blocks of eight, and every column from 24 on counts with the last
/// region.
pub open spec fn region_of_column(column: int) -> Seq<char> {
    if column <= 7 {
        "Ribeirão Preto (RA15)"@
    } else if column <= 15 {
        "Franca"@
    } else if column <= 23 {
        "Central (RA14 - Araraquara)"@
    } else {
        "Araras"@
    }
}

/// A cell names a city: trimmed it is not empty, and it does not start
/// with the replacement character that marks what could not be decoded.
pub open spec fn names_city(cell: Seq<char>) -> bool {
    trimmed(cell).len() > 0 && trimmed(cell)[0] != '\u{FFFD}'
}

/// The cities that the first `upto` cells of a row name, each with its
/// column.
pub open spec fn row_cities(row: Seq<Seq<char>>, upto: int) -> Seq<(int, Seq<char>)>
    decreases upto,
{
    if upto <= 0 {
        seq![]
    } else if names_city(row[upto - 1]) {
        row_cities(row, upto - 1).push((upto - 1, trimmed(row[upto - 1])))
    } else {
        row_cities(row, upto - 1)
    }
}

/// The cities that the rows of an export name, each with its column, row
/// by row.
pub open spec fn export_cities(rows: Seq<Seq<Seq<char>>>) -> Seq<(int, Seq<char>)>
    decreases rows.len(),
{
    if rows.len() == 0 {
        seq![]
    } else {
        export_cities(rows.drop_last()) + row_cities(rows.last(), rows.last().len() as int)
    }
}

/// `route` is the route of one city found in `column`: named after
/// region and city, in that region, with that city alone; and it is
/// valid.
pub open spec fn route_of_city(route: Route, column: int, city: Seq<char>) -> bool {
    &&& route.is_new_but_for_cities(region_of_column(column) + " - "@ + city, region_of_column(column))
    &&& route.cities() == seq![city]
    &&& route.valid()
}

/// There is one route for each city, in the same order.
pub open spec fn routes_of_cities(routes: Seq<Route>, cities: Seq<(int, Seq<char>)>) -> bool {
    &&& routes.len() == cities.len()
    &&& forall|k: int|
        0 <= k < routes.len() ==> route_of_city(#[trigger] routes[k], cities[k].0, cities[k].1)
}

/// A file name that the routes export goes by: it ends in `.csv` and
/// holds `Rotas`.
pub open spec fn is_route_file_name(name: Seq<char>) -> bool {
    ends_with_seq(name, ".csv"@) && contains_seq(name, "Rotas"@)
}

impl Route {
    /// The route holds the given name and region, is active, and has no
    /// measure yet.
    pub open spec fn is_new_but_for_cities(&self, nome: Seq<char>, regiao: Seq<char>) -> bool {
        &&& self.nome@ == nome
        &&& self.regiao@ == regiao
        &&& self.distancia_km is None
        &&& self.tempo_estimado_horas is None
        &&& self.pedagios is None
        &&& self.custo_pedagio is None
        &&& self.ativo
        &&& self.observacoes is None
        &&& self.metadata.is_fresh_at(self.metadata.created_at)
    }
}

impl RouteImporter {
    pub fn new() -> (r: RouteImporter) {
        RouteImporter {  }
    }

    /// The name of the region that the cities of a column belong to.
    pub fn region_name(column: usize) -> (r: &'static str)
        ensures
            r@ == region_of_column(column as int),
            r@.len() > 0 && !is_space(r@[0]),
    {
        proof {
            reveal_strlit("Ribeirão Preto (RA15)");
            reveal_strlit("Franca");
            reveal_strlit("Central (RA14 - Araraquara)");
            reveal_strlit("Araras");
        }
        if column <= 7 {
            "Ribeirão Preto (RA15)"
        } else if column <= 15 {
            "Franca"
        } else if column <= 23 {
            "Central (RA14 - Araraquara)"
        } else {
            "Araras"
        }
    }

    /// The route of the city that a cell names, if it names one.
    pub fn route_from_cell(&self, column: usize, cell: &str) -> (r: Option<Route>)
        ensures
            r is Some <==> names_city(cell@),
            r matches Some(route) ==> route_of_city(route, column as int, trimmed(cell@))
                && route.wf(),
    {
        let v = chars_of(cell);
        let (from, to) = trim_bounds(&v);
        if from == to {
            return None;
        }
        assert(trimmed(cell@)[0] == v@[from as int]);
        if v[from] == '\u{FFFD}' {
            return None;
        }
        let cidade = string_of_range(&v, from, to);
        let regiao = RouteImporter::region_name(column);
        let mut nome = String::new();
        push_text(&mut nome, regiao);
        push_text(&mut nome, " - ");
        push_text(&mut nome, cidade.as_str());
        assert(nome@ =~= region_of_column(column as int) + " - "@ + trimmed(cell@));
        proof {
            assert(nome@[0] == regiao@[0]);
            law_text_with_a_head_is_not_blank(nome@);
        }
        let mut route = Route::new(nome, regiao.to_owned());
        route.add_cidade(cidade);
        assert(route.cities() =~= seq![trimmed(cell@)]);
        Some(route)
    }
}

impl Importer for RouteImporter {
    type Output = Route;

    open spec fn accepts(&self, file_name: Seq<char>) -> bool {
        is_route_file_name(file_name)
    }

    open spec fn imports(
        &self,
        records: Seq<Route>,
        rows: Seq<Seq<Seq<char>>>,
        source: Option<Seq<char>>,
    ) -> bool {
        routes_of_cities(records, export_cities(rows))
    }

    fn import_rows(&self, rows: &Vec<Vec<String>>, source_file: &Option<String>) -> (routes: Vec<
        Route,
    >) {
        let mut routes: Vec<Route> = Vec::new();
        let ghost all = rows.deep_view();
        let mut i: usize = 0;
        while i < rows.len()
            invariant
                i <= rows.len(),
                all == rows.deep_view(),
                routes_of_cities(routes@, export_cities(all.take(i as int))),
            decreases rows.len() - i,
        {
            let row = &rows[i];
            let ghost cells = row.deep_view();
            let ghost earlier = export_cities(all.take(i as int));
            proof {
                assert(all.take(i + 1).drop_last() =~= all.take(i as int));
                assert(all.take(i + 1).last() == cells);
                assert(earlier + row_cities(cells, 0) =~= earlier);
            }
            let mut j: usize = 0;
            while j < row.len()
                invariant
                    j <= row.len(),
                    cells == row.deep_view(),
                    routes_of_cities(routes@, earlier + row_cities(cells, j as int)),
                decreases row.len() - j,
            {
                let ghost found = row_cities(cells, j as int);
                match self.route_from_cell(j, row[j].as_str()) {
                    Some(route) => {
                        routes.push(route);
                        assert(earlier + row_cities(cells, j + 1) =~= (earlier + found).push(
                            (j as int, trimmed(cells[j as int])),
                        ));
                    },
                    None => {},
                }
                j += 1;
            }
            i += 1;
        }
        assert(all.take(rows.len() as int) =~= all);
        routes
    }

    fn import_bytes(&self, bytes: &[u8], source_file: &Option<String>) -> (r: Result<
        Vec<Route>,
        Error,
    >) {
        if bytes.len() > usize::MAX / 8 {
            return Err(Error::Import("Erro ao ler arquivo: grande demais".to_owned()));
        }
        let rows = read_export(bytes);
        Ok(self.import_rows(&rows, source_file))
    }

    fn can_import(&self, file_name: &str) -> (b: bool) {
        ends_with(file_name, ".csv") && contains(file_name, "Rotas")
    }
}

} // verus!
