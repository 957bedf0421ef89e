use erasmus_validator::api::DestinosParams;
use erasmus_validator::csv_loader::{
    CsvLoad, LoadAction,
    erasmus_code_of_record, erasmus_codes, erasmus_codes_of_records, get_elem, load_result, lookup_outcome, LoadCsvError,
    LoadCsvRecordError, Posicion,
};
use erasmus_validator::database::generic::{GetUniCityError, GetUniCitySolvableProblem};
use erasmus_validator::database::model::UniCity;

fn posicion(col: usize, header: bool) -> Posicion {
    Posicion {
        codigo_erasmus: col,
        nivel_estudios: None,
        plazas: None,
        meses: None,
        idioma: None,
        observaciones: None,
        header,
    }
}

#[test]
fn codes_of_each_record() {
    let data = "pais,codigo\nSpain,E  MADRID03\nItaly,I ROMA12\nFrance,bad\n";
    let r = erasmus_codes(data, &posicion(1, true));
    assert_eq!(r.len(), 3);
    let c0 = r[0].as_ref().unwrap();
    assert_eq!((c0.pais(), c0.region(), c0.universidad()), ("E", "MADRID", 3));
    let c1 = r[1].as_ref().unwrap();
    assert_eq!((c1.pais(), c1.region(), c1.universidad()), ("I", "ROMA", 12));
    match &r[2] {
        Err(LoadCsvRecordError::ParseErasmusCode(t)) => assert_eq!(t, "bad"),
        other => panic!("unexpected {other:?}"),
    }
}

#[test]
fn header_row_counts_when_not_a_header() {
    let data = "codigo\nE  MADRID03\n";
    let r = erasmus_codes(data, &posicion(0, false));
    assert_eq!(r.len(), 2);
    assert!(matches!(&r[0], Err(LoadCsvRecordError::ParseErasmusCode(t)) if t == "codigo"));
    assert!(r[1].is_ok());
}

#[test]
fn quoted_field_with_comma() {
    let data = "\"E  MADRID03\",\"a, b\"\n";
    let r = erasmus_codes(data, &posicion(0, false));
    assert_eq!(r.len(), 1);
    assert_eq!(r[0].as_ref().unwrap().universidad(), 3);
}

#[test]
fn missing_code_column() {
    let data = "a,b\n";
    let r = erasmus_codes(data, &posicion(5, false));
    assert!(matches!(r[0], Err(LoadCsvRecordError::GetErasmusCode)));
}

#[test]
fn ragged_record_is_a_csv_error() {
    let data = "E  MADRID03,x\nI ROMA01\n";
    let r = erasmus_codes(data, &posicion(0, false));
    assert_eq!(r.len(), 2);
    assert!(r[0].is_ok());
    assert!(matches!(r[1], Err(LoadCsvRecordError::Csv(_))));
}

#[test]
fn code_of_a_single_record() {
    let rec = vec!["x".to_string(), "D  BERLIN01".to_string()];
    let c = erasmus_code_of_record(&rec, &posicion(1, false)).unwrap();
    assert_eq!(c.to_string(), "D BERLIN01");
    assert!(matches!(
        erasmus_code_of_record(&rec, &posicion(2, false)),
        Err(LoadCsvRecordError::GetErasmusCode)
    ));
}

#[test]
fn load_succeeds_when_every_record_does() {
    assert!(load_result(vec![Ok(()), Ok(())]).is_ok());
    assert!(load_result(Vec::new()).is_ok());
}

#[test]
fn load_fails_with_every_failed_record_numbered() {
    let outcomes = vec![
        Ok(()),
        Err(LoadCsvRecordError::GetErasmusCode),
        Ok(()),
        Err(LoadCsvRecordError::ParseErasmusCode("zz".to_string())),
    ];
    match load_result(outcomes) {
        Err(LoadCsvError::RecordErrors(v)) => {
            assert_eq!(v.len(), 2);
            assert_eq!(v[0].0, 1);
            assert!(matches!(v[0].1, LoadCsvRecordError::GetErasmusCode));
            assert_eq!(v[1].0, 3);
            assert!(matches!(&v[1].1, LoadCsvRecordError::ParseErasmusCode(t) if t == "zz"));
        }
        other => panic!("unexpected {other:?}"),
    }
}

#[test]
fn failed_lookup_fails_the_record() {
    let ok = lookup_outcome(Ok(UniCity { uni: None, city: "Madrid".into() }));
    assert!(ok.is_ok());
    let err = lookup_outcome(Err(GetUniCityError::SolvableProblem(
        GetUniCitySolvableProblem::MultipleOptions(Vec::new()),
    )));
    assert!(matches!(err, Err(LoadCsvRecordError::GetUniCity(GetUniCityError::SolvableProblem(_)))));
}

#[test]
fn get_elem_turns_line_breaks_into_spaces() {
    let rec = vec!["a\r\nb\nc".to_string(), "\r\r\n\n".to_string(), "plain".to_string()];
    assert_eq!(get_elem(Some(0), &rec).as_deref(), Some("a b c"));
    assert_eq!(get_elem(Some(1), &rec).as_deref(), Some("\r  "));
    assert_eq!(get_elem(Some(2), &rec).as_deref(), Some("plain"));
    assert_eq!(get_elem(Some(3), &rec), None);
    assert_eq!(get_elem(None, &rec), None);
    for i in 0..3 {
        assert!(!get_elem(Some(i), &rec).unwrap().contains('\n'));
    }
}

#[test]
fn posicion_from_params() {
    let params = DestinosParams {
        user: "Juan".to_string(),
        codigo_erasmus: 3,
        nivel_estudios: Some(5),
        plazas: Some(6),
        meses: None,
        idioma: Some(8),
        observaciones: Some(9),
        header: true,
    };
    let p = Posicion::from(&params);
    assert_eq!(p.codigo_erasmus, 3);
    assert_eq!(p.nivel_estudios, Some(5));
    assert_eq!(p.plazas, Some(6));
    assert_eq!(p.meses, None);
    assert_eq!(p.idioma, Some(8));
    assert_eq!(p.observaciones, Some(9));
    assert!(p.header);
}

#[test]
fn codes_of_given_records() {
    let records = vec![
        Ok(vec!["E  MADRID03".to_string()]),
        Ok(vec!["nope".to_string()]),
        Ok(Vec::new()),
    ];
    let r = erasmus_codes_of_records(records, &posicion(0, false));
    assert_eq!(r.len(), 3);
    assert_eq!(r[0].as_ref().unwrap().to_string(), "E MADRID03");
    assert!(matches!(&r[1], Err(LoadCsvRecordError::ParseErasmusCode(t)) if t == "nope"));
    assert!(matches!(r[2], Err(LoadCsvRecordError::GetErasmusCode)));
}

#[test]
fn load_steps_in_order_and_commits() {
    let data = "E  MADRID03\nI ROMA12\n";
    let mut load = CsvLoad::new(data, &posicion(0, false), "Juan");
    assert!(matches!(load.next(), LoadAction::Begin));
    match load.next() {
        LoadAction::LookUp(c) => assert_eq!(c.to_string(), "E MADRID03"),
        other => panic!("unexpected {other:?}"),
    }
    load.found(Ok(UniCity { uni: None, city: "Madrid".into() }));
    match load.next() {
        LoadAction::LookUp(c) => assert_eq!(c.to_string(), "I ROMA12"),
        other => panic!("unexpected {other:?}"),
    }
    load.found(Ok(UniCity { uni: Some("Sapienza".into()), city: "Roma".into() }));
    assert!(matches!(load.next(), LoadAction::Commit));
}

#[test]
fn load_rolls_back_with_numbered_failures() {
    let data = "E  MADRID03\nbad\nI ROMA12\n";
    let mut load = CsvLoad::new(data, &posicion(0, false), "Ana");
    assert!(matches!(load.next(), LoadAction::Begin));
    assert!(matches!(load.next(), LoadAction::LookUp(_)));
    load.found(Ok(UniCity { uni: None, city: "Madrid".into() }));
    assert!(matches!(load.next(), LoadAction::Skip));
    assert!(matches!(load.next(), LoadAction::LookUp(_)));
    load.found(Err(GetUniCityError::SolvableProblem(
        GetUniCitySolvableProblem::MultipleOptions(Vec::new()),
    )));
    match load.next() {
        LoadAction::Rollback(LoadCsvError::RecordErrors(v)) => {
            assert_eq!(v.len(), 2);
            assert_eq!(v[0].0, 1);
            assert!(matches!(&v[0].1, LoadCsvRecordError::ParseErasmusCode(t) if t == "bad"));
            assert_eq!(v[1].0, 2);
            assert!(matches!(v[1].1, LoadCsvRecordError::GetUniCity(_)));
        }
        other => panic!("unexpected {other:?}"),
    }
}

#[test]
fn load_does_not_depend_on_the_user() {
    let data = "E  MADRID03\nbad\n";
    let run = |user: &str| {
        let mut load = CsvLoad::new(data, &posicion(0, false), user);
        let mut steps = Vec::new();
        loop {
            let a = load.next();
            let name = match &a {
                LoadAction::Begin => "begin".to_string(),
                LoadAction::LookUp(c) => format!("lookup {}", c.to_string()),
                LoadAction::Skip => "skip".to_string(),
                LoadAction::Commit => "commit".to_string(),
                LoadAction::Rollback(LoadCsvError::RecordErrors(v)) => format!("rollback {}", v.len()),
            };
            steps.push(name);
            match a {
                LoadAction::LookUp(_) => load.found(Ok(UniCity { uni: None, city: "M".into() })),
                LoadAction::Commit | LoadAction::Rollback(_) => break,
                _ => {}
            }
        }
        steps
    };
    assert_eq!(run("Juan"), run("Ana"));
    assert_eq!(run("Juan"), vec!["begin", "lookup E MADRID03", "skip", "rollback 1"]);
}

#[test]
fn empty_file_commits() {
    let mut load = CsvLoad::new("", &posicion(0, false), "Juan");
    assert!(matches!(load.next(), LoadAction::Begin));
    assert!(matches!(load.next(), LoadAction::Commit));
}
