use personal_controller::base::{Entity, Error, Status};
use personal_controller::calendar::{Date, TimeOfDay};
use personal_controller::freight::FreightOrder;
use personal_controller::freight_importer::FreightOrderImporter;
use personal_controller::importers::{auto_detect_importer, DetectedImporter, Importer};
use personal_controller::route::Route;
use personal_controller::route_importer::RouteImporter;
use personal_controller::tabular::{decode_export, read_export, readable_rows};
use personal_controller::timesheet::Timesheet;
use personal_controller::timesheet_importer::TimesheetImporter;

fn row(cells: &[&str]) -> Vec<String> {
    cells.iter().map(|c| c.to_string()).collect()
}

fn freight_row() -> Vec<String> {
    let mut cells = row(&[
        " 288415 ",
        "02/04/2025",
        "01/04/2025",
        "111, 222;333",
        " Pagador SA ",
        " (16) 3333-4444 ",
        "Remetente Ltda",
        "Franca",
        "Destino ME",
        "Araras",
        "12",
        "1.234,5",
        "R$ 10.000,00",
        "R$ 1.234,56",
        "900,00",
    ]);
    while cells.len() < 26 {
        cells.push(String::new());
    }
    cells.extend(row(&["Filial A", " João ", "Filial B", "Maria"]));
    cells
}

#[test]
fn export_is_decoded_and_split_into_rows() {
    // 0xE3 is a-tilde in Windows-1252; the first row is the header
    let bytes = b"nome;cidade\nJo\xE3o;S\xE3o Paulo\n\"a;b\";c;d\n\nlast\n";
    let rows = read_export(bytes);
    assert_eq!(
        rows,
        vec![row(&["João", "São Paulo"]), row(&["a;b", "c", "d"]), row(&["last"])]
    );
    assert_eq!(read_export(b""), Vec::<Vec<String>>::new());
    assert_eq!(read_export(b"only;a;header\n"), Vec::<Vec<String>>::new());
}

#[test]
fn freight_row_becomes_an_order() {
    let importer = FreightOrderImporter::new();
    let source = Some("Planilha-04.csv".to_string());
    let order = importer.order_from_row(&freight_row(), &source).unwrap();
    assert_eq!(order.numero, "288415");
    assert_eq!(order.data_emissao, Date { year: 2025, month: 4, day: 1 });
    assert_eq!(order.data_agendamento, Some(Date { year: 2025, month: 4, day: 2 }));
    assert_eq!(order.data_entrega, None);
    assert_eq!(order.notas_fiscais, vec!["111", "222", "333"]);
    assert_eq!(order.pagador_nome, "Pagador SA");
    assert_eq!(order.pagador_telefone.as_deref(), Some("(16) 3333-4444"));
    assert_eq!(order.remetente_nome, "Remetente Ltda");
    assert_eq!(order.remetente_cidade, "Franca");
    assert_eq!(order.destinatario_nome, "Destino ME");
    assert_eq!(order.destinatario_cidade, "Araras");
    assert_eq!(order.volumes, 12);
    assert_eq!(order.peso, "1234.5");
    assert_eq!(order.valor_notas, "10000.00");
    assert_eq!(order.valor_frete, "1234.56");
    assert_eq!(order.valor_frete.parse::<f64>().unwrap_or(0.0), 1234.56);
    assert_eq!(order.frete_tabelado.as_deref(), Some("900.00"));
    assert_eq!(order.filial_coleta.as_deref(), Some("Filial A"));
    assert_eq!(order.motorista_coleta.as_deref(), Some("João"));
    assert_eq!(order.filial_entrega.as_deref(), Some("Filial B"));
    assert_eq!(order.motorista_entrega.as_deref(), Some("Maria"));
    assert_eq!(order.status, Status::Pending);
    assert_eq!(order.fonte_arquivo, source);
    assert_eq!(order.metadata.created_at, order.metadata.updated_at);
    assert_eq!(order.id.len(), 36);
    assert_ne!(order.id, order.pagador_id);
    assert!(order.validate().is_ok());
}

#[test]
fn freight_row_with_ten_cells_takes_defaults() {
    let importer = FreightOrderImporter::new();
    let cells = row(&["1", "", "01/04/2025", "", "P", "", "R", "", "D", ""]);
    let order = importer.order_from_row(&cells, &None).unwrap();
    assert_eq!(order.data_agendamento, None);
    assert!(order.notas_fiscais.is_empty());
    assert_eq!(order.pagador_telefone.as_deref(), Some(""));
    assert_eq!(order.volumes, 0);
    assert_eq!(order.peso, "0");
    assert_eq!(order.valor_notas, "0");
    assert_eq!(order.valor_frete, "0");
    assert_eq!(order.frete_tabelado, None);
    assert_eq!(order.filial_coleta, None);
    assert_eq!(order.motorista_entrega, None);
    assert_eq!(order.fonte_arquivo, None);
}

#[test]
fn freight_rows_that_lack_something_are_left_out() {
    let importer = FreightOrderImporter::new();
    let good = freight_row();
    // fewer than ten cells
    assert!(importer.order_from_row(&good[..9].to_vec(), &None).is_none());
    assert!(importer.order_from_row(&Vec::new(), &None).is_none());
    // ten cells or more, but something that is needed is empty
    for column in [0usize, 4, 6, 8] {
        let mut cells = good.clone();
        cells[column] = "   ".to_string();
        assert!(importer.order_from_row(&cells, &None).is_none(), "column {column}");
    }
    // no date of issue, or one that does not exist
    let mut cells = good.clone();
    cells[2] = "31/04/2025".to_string();
    assert!(importer.order_from_row(&cells, &None).is_none());
    cells[2] = String::new();
    assert!(importer.order_from_row(&cells, &None).is_none());
    // the other cells may hold anything
    let mut cells = good.clone();
    cells[1] = "never".to_string();
    cells[10] = "many".to_string();
    let order = importer.order_from_row(&cells, &None).unwrap();
    assert_eq!(order.data_agendamento, None);
    assert_eq!(order.volumes, 0);
}

#[test]
fn freight_import_keeps_the_order_of_the_rows() {
    let importer = FreightOrderImporter::new();
    let rows = vec![
        row(&["1", "", "01/04/2025", "", "P", "", "R", "", "D", ""]),
        row(&["short", "row"]),
        row(&["", "", "01/04/2025", "", "P", "", "R", "", "D", ""]),
        row(&["2", "", "02/04/2025", "", "P", "", "R", "", "D", ""]),
    ];
    let orders = importer.import_rows(&rows, &None);
    let numbers: Vec<&str> = orders.iter().map(|o| o.numero.as_str()).collect();
    assert_eq!(numbers, vec!["1", "2"]);
    // the same orders come out without the rows that were left out
    let fewer = vec![rows[0].clone(), rows[3].clone()];
    let again = importer.import_rows(&fewer, &None);
    let numbers: Vec<&str> = again.iter().map(|o| o.numero.as_str()).collect();
    assert_eq!(numbers, vec!["1", "2"]);
    assert!(importer.import_rows(&Vec::new(), &None).is_empty());
}

#[test]
fn freight_import_reads_bytes() {
    let importer = FreightOrderImporter::new();
    let mut bytes: Vec<u8> = Vec::new();
    bytes.extend_from_slice(b"numero;agendamento;emissao;notas;pagador;tel;rem;cid;dest;cid\n");
    bytes.extend_from_slice(
        b"77;;05/05/2025;9,8;Jos\xE9;;Rem;Ribeir\xE3o Preto;Dest;S\xE3o Carlos\n",
    );
    bytes.extend_from_slice(b"too;short\n");
    let source = Some("Planilha.csv".to_string());
    let orders = importer.import_bytes(&bytes, &source).unwrap();
    assert_eq!(orders.len(), 1);
    assert_eq!(orders[0].numero, "77");
    assert_eq!(orders[0].pagador_nome, "José");
    assert_eq!(orders[0].remetente_cidade, "Ribeirão Preto");
    assert_eq!(orders[0].destinatario_cidade, "São Carlos");
    assert_eq!(orders[0].notas_fiscais, vec!["9", "8"]);
    assert_eq!(orders[0].fonte_arquivo, source);
}

#[test]
fn freight_file_names() {
    let importer = FreightOrderImporter::new();
    assert!(importer.can_import("relatorio-04.csv"));
    assert!(importer.can_import("Planilha de fretes.csv"));
    assert!(!importer.can_import("Planilha de fretes.xlsx"));
    assert!(!importer.can_import("fretes.csv"));
    assert!(!importer.can_import("planilha.csv"));
}

#[test]
fn timesheet_row_becomes_a_record() {
    let importer = TimesheetImporter::new();
    let source = Some("Horas.csv".to_string());
    let cells = row(&[" João Silva ", " Janeiro/2025 ", "15/01/2025", "08:00", "17:00", "x"]);
    let sheet = importer.timesheet_from_row(&cells, &source).unwrap();
    assert_eq!(sheet.funcionario, "João Silva");
    assert_eq!(sheet.mes, "Janeiro/2025");
    assert_eq!(sheet.data, Date { year: 2025, month: 1, day: 15 });
    assert_eq!(sheet.entrada, TimeOfDay { hour: 8, minute: 0, second: 0 });
    assert_eq!(sheet.saida, TimeOfDay { hour: 17, minute: 0, second: 0 });
    assert_eq!(sheet.total_minutos, 540);
    assert_eq!(sheet.saldo_minutos, 0);
    assert_eq!(sheet.fonte_arquivo, source);
    assert!(sheet.validate().is_ok());
}

#[test]
fn timesheet_rows_need_date_and_both_times() {
    let importer = TimesheetImporter::new();
    let good = row(&["Ana", "Jan", "15/01/2025", "22:00", "06:00"]);
    assert_eq!(importer.timesheet_from_row(&good, &None).unwrap().total_minutos, 480);
    assert!(importer.timesheet_from_row(&good[..4].to_vec(), &None).is_none());
    for (column, value) in [(0, " "), (2, "31/02/2025"), (3, "25:00"), (4, "")] {
        let mut cells = good.clone();
        cells[column] = value.to_string();
        assert!(importer.timesheet_from_row(&cells, &None).is_none(), "column {column}");
    }
    let mut cells = good.clone();
    cells[1] = String::new();
    assert_eq!(importer.timesheet_from_row(&cells, &None).unwrap().mes, "");
}

#[test]
fn timesheet_import_reads_bytes() {
    let importer = TimesheetImporter::new();
    let bytes = b"func;mes;data;entrada;saida\nAna;Jan;15/01/2025;08:00;17:00\nBia;Jan;x;08:00;17:00\nCida;Jan;16/01/2025;22:00;06:00\n";
    let sheets = importer.import_bytes(bytes, &None).unwrap();
    let minutes: Vec<(&str, i32)> =
        sheets.iter().map(|s| (s.funcionario.as_str(), s.total_minutos)).collect();
    assert_eq!(minutes, vec![("Ana", 540), ("Cida", 480)]);
    assert!(importer.can_import("Horas Janeiro.csv"));
    assert!(!importer.can_import("Horas Janeiro.txt"));
    assert!(!importer.can_import("Ponto.csv"));
}

#[test]
fn timesheet_total_minutes() {
    let at = |h, m| TimeOfDay::from_hms_opt(h, m, 0).unwrap();
    assert_eq!(Timesheet::calculate_minutes(at(8, 0), at(17, 0)), 540);
    assert_eq!(Timesheet::calculate_minutes(at(22, 0), at(6, 0)), 480);
    assert_eq!(Timesheet::calculate_minutes(at(9, 15), at(9, 15)), 0);
    assert_eq!(Timesheet::calculate_minutes(at(0, 0), at(23, 59)), 1439);
    assert_eq!(Timesheet::calculate_minutes(at(23, 59), at(0, 0)), 1);
    assert_eq!(Timesheet::calculate_minutes(at(12, 0), at(11, 59)), 1439);
}

#[test]
fn route_import_end_to_end() {
    let importer = RouteImporter::new();
    // the first row is the header; in the row that follows, column 8 holds a city
    let bytes = b"h0;h1;h2;h3;h4;h5;h6;h7;h8\n;;;;;;;;Franca\n";
    let routes = importer.import_bytes(bytes, &None).unwrap();
    assert_eq!(routes.len(), 1);
    assert_eq!(routes[0].nome, "Franca - Franca");
    assert_eq!(routes[0].regiao, "Franca");
    assert_eq!(routes[0].cidades, vec!["Franca"]);
    assert!(routes[0].ativo);
    assert!(routes[0].validate().is_ok());
}

#[test]
fn route_regions_go_by_column() {
    let importer = RouteImporter::new();
    let mut cells = vec![String::new(); 30];
    cells[0] = " Sertãozinho ".to_string();
    cells[7] = "Cravinhos".to_string();
    cells[8] = "Franca".to_string();
    cells[15] = "Batatais".to_string();
    cells[16] = "Araraquara".to_string();
    cells[23] = "Matão".to_string();
    cells[24] = "Araras".to_string();
    cells[29] = "Leme".to_string();
    cells[3] = "\u{FFFD}bad".to_string();
    cells[4] = "  \u{FFFD}".to_string();
    cells[5] = "   ".to_string();
    let routes = importer.import_rows(&vec![cells, vec!["Jardinópolis".to_string()]], &None);
    let seen: Vec<(&str, &str)> =
        routes.iter().map(|r| (r.regiao.as_str(), r.nome.as_str())).collect();
    assert_eq!(
        seen,
        vec![
            ("Ribeirão Preto (RA15)", "Ribeirão Preto (RA15) - Sertãozinho"),
            ("Ribeirão Preto (RA15)", "Ribeirão Preto (RA15) - Cravinhos"),
            ("Franca", "Franca - Franca"),
            ("Franca", "Franca - Batatais"),
            ("Central (RA14 - Araraquara)", "Central (RA14 - Araraquara) - Araraquara"),
            ("Central (RA14 - Araraquara)", "Central (RA14 - Araraquara) - Matão"),
            ("Araras", "Araras - Araras"),
            ("Araras", "Araras - Leme"),
            ("Ribeirão Preto (RA15)", "Ribeirão Preto (RA15) - Jardinópolis"),
        ]
    );
    for route in &routes {
        assert_eq!(route.cidades.len(), 1);
    }
    assert!(importer.route_from_cell(0, "ok\u{FFFD}").is_some());
    assert!(importer.can_import("Rotas.csv"));
    assert!(!importer.can_import("Rotas.pdf"));
}

#[test]
fn route_cities_are_not_listed_twice() {
    let mut route = Route::new("Norte".to_string(), "Franca".to_string());
    route.add_cidade("Franca".to_string());
    route.add_cidade("Batatais".to_string());
    route.add_cidade("Franca".to_string());
    assert_eq!(route.cidades, vec!["Franca", "Batatais"]);
    assert!(route.has_cidade(&"Batatais".to_string()));
    assert!(!route.has_cidade(&"batatais".to_string()));
    assert_eq!(route.entity_type(), "route");
}

#[test]
fn importer_is_chosen_by_file_name() {
    assert!(matches!(auto_detect_importer("Horas-2025.csv"), Ok(DetectedImporter::Timesheet(_))));
    assert!(matches!(auto_detect_importer("Ponto.csv"), Ok(DetectedImporter::Timesheet(_))));
    assert!(matches!(auto_detect_importer("Horas Rotas.csv"), Ok(DetectedImporter::Timesheet(_))));
    assert!(matches!(auto_detect_importer("Rotas-04.csv"), Ok(DetectedImporter::Route(_))));
    assert!(matches!(auto_detect_importer("x-04.csv"), Ok(DetectedImporter::FreightOrder(_))));
    assert!(matches!(auto_detect_importer("Planilha"), Ok(DetectedImporter::FreightOrder(_))));
    match auto_detect_importer("notas.txt") {
        Err(Error::Import(message)) => {
            assert_eq!(message, "Não foi possível detectar o tipo do arquivo: notas.txt")
        }
        _ => panic!("a name that tells nothing must be refused"),
    }
}

#[test]
fn new_freight_order_is_empty_and_pending() {
    let date = Date::from_ymd_opt(2025, 4, 1).unwrap();
    let order = FreightOrder::new(
        "1".into(),
        date,
        "P".into(),
        "R".into(),
        "RC".into(),
        "D".into(),
        "DC".into(),
    );
    assert_eq!(order.status, Status::Pending);
    assert_eq!(order.volumes, 0);
    assert_eq!(order.peso, "0");
    assert!(order.notas_fiscais.is_empty());
    assert_eq!(order.entity_type(), "freight_order");
    assert_eq!(order.id(), &order.id);
}

#[test]
fn freight_order_validation_names_what_is_wrong() {
    let date = Date::from_ymd_opt(2025, 4, 1).unwrap();
    let mut order =
        FreightOrder::new("1".into(), date, "P".into(), "R".into(), "RC".into(), "D".into(), "DC".into());
    assert!(order.validate().is_ok());
    order.volumes = -1;
    assert!(matches!(order.validate(), Err(Error::Validation(_))));
    order.volumes = 0;
    order.pagador_nome = "  ".into();
    assert_eq!(order.validate().unwrap_err().to_string(), "Validation error: Pagador não pode ser vazio");
    order.numero = "".into();
    assert_eq!(order.validate().unwrap_err().to_string(), "Validation error: Número não pode ser vazio");
}

#[test]
fn freight_rows_with_numbers_below_zero_are_left_out() {
    let importer = FreightOrderImporter::new();
    let good = freight_row();
    for (column, value) in [(10, "-1"), (11, "-0,5"), (12, "R$ -1"), (13, "-1.000,00")] {
        let mut cells = good.clone();
        cells[column] = value.to_string();
        assert!(importer.order_from_row(&cells, &None).is_none(), "column {column}");
    }
    // a tabled rate below zero, a zero with a sign and what is no number do no harm
    let mut cells = good.clone();
    cells[14] = "-5".to_string();
    cells[11] = "-0,00".to_string();
    cells[12] = "garbage".to_string();
    cells[13] = "1,2,3".to_string();
    let order = importer.order_from_row(&cells, &None).unwrap();
    assert_eq!(order.frete_tabelado.as_deref(), Some("-5"));
    assert_eq!(order.peso, "-0.00");
    assert_eq!(order.valor_notas, "0");
    assert_eq!(order.valor_frete, "0");
    assert!(order.validate().is_ok());
    let orders = importer.import_rows(&vec![good.clone(), cells, good], &None);
    assert!(orders.iter().all(|o| o.validate().is_ok()));
    assert_eq!(orders.len(), 3);
}

#[test]
fn freight_order_needs_sender_and_recipient_and_no_amount_below_zero() {
    let importer = FreightOrderImporter::new();
    let order = importer.order_from_row(&freight_row(), &None).unwrap();
    assert!(order.validate().is_ok());
    let mut bad = order.clone();
    bad.remetente_nome = " ".into();
    assert_eq!(bad.validate().unwrap_err().to_string(), "Validation error: Remetente não pode ser vazio");
    let mut bad = order.clone();
    bad.destinatario_nome = "".into();
    assert_eq!(bad.validate().unwrap_err().to_string(), "Validation error: Destinatário não pode ser vazio");
    let mut bad = order.clone();
    bad.peso = "-0.1".into();
    assert_eq!(bad.validate().unwrap_err().to_string(), "Validation error: Peso não pode ser negativo");
    let mut bad = order.clone();
    bad.valor_notas = "-1".into();
    assert!(matches!(bad.validate(), Err(Error::Validation(_))));
    let mut bad = order.clone();
    bad.valor_frete = "-1234.56".into();
    assert_eq!(bad.validate().unwrap_err().to_string(), "Validation error: Valor do frete não pode ser negativo");
    let mut fine = order.clone();
    fine.frete_tabelado = Some("-1".into());
    fine.peso = "not a number".into();
    assert!(fine.validate().is_ok());
}

#[test]
fn decoding_tells_of_malformed_bytes() {
    let (text, had_errors) = decode_export(b"Jo\xE3o;\x80\x81");
    assert_eq!(text, "João;\u{20ac}\u{81}");
    assert!(!had_errors);
    // a byte order mark switches the decoder to UTF-8, where 0xE3 alone is malformed
    let (text, had_errors) = decode_export(b"\xEF\xBB\xBFJo\xE3o");
    assert_eq!(text, "Jo\u{FFFD}o");
    assert!(had_errors);
    assert_eq!(decode_export(b""), (String::new(), false));
}

#[test]
fn records_that_are_errors_are_skipped() {
    let records = vec![Some(row(&["a", "b"])), None, Some(row(&[])), None, Some(row(&["c"]))];
    assert_eq!(readable_rows(&records), vec![row(&["a", "b"]), row(&[]), row(&["c"])]);
    assert_eq!(readable_rows(&vec![None, None]), Vec::<Vec<String>>::new());
    assert_eq!(readable_rows(&Vec::new()), Vec::<Vec<String>>::new());
}
