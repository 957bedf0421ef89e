use erasmus_validator::database::generic::{
    classify_uni_matches, lookup_step, uni_doesnt_exist, wrong_country, GetUniCityError,
    GetUniCitySolvableProblem, LookupEvent, LookupStage, LookupStep, UniLookup,
};
use erasmus_validator::database::model::{CityId, CityNameIter, Country, CountryId, UniCity};
use erasmus_validator::erasmus_code::ErasmusCode;

fn names(city: &CityId) -> Vec<String> {
    let mut it = city.name();
    let mut out = Vec::new();
    while let Some(n) = it.next() {
        out.push(n.to_string());
    }
    out
}

fn uni(city: &str, name: Option<&str>) -> UniCity {
    UniCity { uni: name.map(String::from), city: city.to_string() }
}

#[test]
fn country_id_keeps_code_and_known() {
    let c = CountryId::new("E".to_string(), true);
    assert_eq!(c.code(), "E");
    assert!(c.is_known());
    assert!(!CountryId::new("ZZ".to_string(), false).is_known());
}

#[test]
fn city_without_names_is_not_known() {
    let city = CityId::new_inexistant("MADRID".to_string(), CountryId::new("E".to_string(), true));
    assert!(!city.is_known());
    assert_eq!(city.region(), "MADRID");
    assert_eq!(city.country_code(), "E");
    assert!(names(&city).is_empty());
    assert!(matches!(city.name(), CityNameIter::Empty));
    assert_eq!(city.name().size_hint(), (0, Some(0)));
}

#[test]
fn single_city_is_known_when_country_is() {
    let city = CityId::new_single(
        "MADRID".to_string(),
        "Madrid".to_string(),
        CountryId::new("E".to_string(), true),
    );
    assert!(city.is_known());
    assert_eq!(names(&city), vec!["Madrid".to_string()]);
    let unknown_country = CityId::new_single(
        "MADRID".to_string(),
        "Madrid".to_string(),
        CountryId::new("E".to_string(), false),
    );
    assert!(!unknown_country.is_known());
}

#[test]
fn multiple_cities_come_in_order() {
    let city = CityId::new_multiple(
        "CANARIA".to_string(),
        vec!["Las Palmas".to_string(), "Telde".to_string(), "Arucas".to_string()],
        CountryId::new("E".to_string(), true),
    );
    assert!(city.is_known());
    let mut it = city.name();
    assert!(matches!(it, CityNameIter::Multiple(_, 0)));
    assert_eq!(it.next(), Some("Las Palmas"));
    assert!(matches!(it, CityNameIter::Multiple(_, 1)));
    assert_eq!(it.next(), Some("Telde"));
    assert_eq!(it.next(), Some("Arucas"));
    assert_eq!(it.next(), None);
    assert_eq!(it.next(), None);
}

#[test]
fn multiple_with_no_names_is_still_known() {
    let city = CityId::new_multiple("R".to_string(), Vec::new(), CountryId::new("E".to_string(), true));
    assert!(city.is_known());
    assert!(names(&city).is_empty());
}

#[test]
fn single_city_iterator_ends() {
    let city = CityId::new_single("R".to_string(), "Uno".to_string(), CountryId::new("E".to_string(), true));
    let mut it = city.name();
    assert!(matches!(it, CityNameIter::Single(Some("Uno"))));
    assert_eq!(it.next(), Some("Uno"));
    assert!(matches!(it, CityNameIter::Single(None)));
    assert_eq!(it.next(), None);
}

#[test]
fn no_match_asks_for_diagnosis() {
    assert!(matches!(classify_uni_matches(Vec::new()), UniLookup::NotFound));
}

#[test]
fn one_match_is_the_answer() {
    match classify_uni_matches(vec![uni("Madrid", Some("UCM"))]) {
        UniLookup::Found(u) => {
            assert_eq!(u.city, "Madrid");
            assert_eq!(u.uni.as_deref(), Some("UCM"));
        }
        other => panic!("unexpected {other:?}"),
    }
}

#[test]
fn several_matches_are_a_problem() {
    match classify_uni_matches(vec![uni("Madrid", None), uni("Getafe", Some("UC3M"))]) {
        UniLookup::Problem(GetUniCitySolvableProblem::MultipleOptions(v)) => {
            assert_eq!(v.len(), 2);
            assert_eq!(v[0].city, "Madrid");
            assert_eq!(v[1].city, "Getafe");
        }
        other => panic!("unexpected {other:?}"),
    }
}

#[test]
fn university_elsewhere_means_wrong_country() {
    let c = Country { erasmus_code: "P".into(), name: "Portugal".into(), iso_code: "PT".into() };
    match wrong_country(Some(c)) {
        Some(GetUniCitySolvableProblem::CountryWrong(c)) => assert_eq!(c.iso_code, "PT"),
        other => panic!("unexpected {other:?}"),
    }
    assert!(wrong_country(None).is_none());
}

#[test]
fn missing_university_reports_its_region() {
    let code = ErasmusCode::try_from("E  MADRID03").unwrap();
    let cases: Vec<(Vec<String>, usize)> = vec![
        (vec![], 0),
        (vec!["Madrid".to_string()], 1),
        (vec!["Madrid".to_string(), "Alcala".to_string()], 2),
    ];
    for (found, n) in cases {
        match uni_doesnt_exist(&code, found.clone(), 1) {
            GetUniCitySolvableProblem::UniDoesntExist { city, uni } => {
                assert_eq!(uni, 3);
                assert_eq!(city.region(), "MADRID");
                assert_eq!(city.country_code(), "E");
                assert_eq!(names(&city), found);
                assert_eq!(city.is_known(), n > 0);
            }
            other => panic!("unexpected {other:?}"),
        }
    }
}

#[test]
fn missing_university_in_unknown_country() {
    let code = ErasmusCode::try_from("XX  NOWHERE01").unwrap();
    match uni_doesnt_exist(&code, vec!["Somewhere".to_string()], 0) {
        GetUniCitySolvableProblem::UniDoesntExist { city, uni } => {
            assert_eq!(uni, 1);
            assert!(!city.is_known());
        }
        other => panic!("unexpected {other:?}"),
    }
}

#[test]
fn solvable_problem_converts_to_error() {
    let e: GetUniCityError = GetUniCitySolvableProblem::MultipleOptions(Vec::new()).into();
    assert!(matches!(e, GetUniCityError::SolvableProblem(_)));
    let e: GetUniCityError = sqlx::Error::RowNotFound.into();
    assert!(matches!(e, GetUniCityError::SqlxError(sqlx::Error::RowNotFound)));
}

#[test]
fn lookup_answers_a_single_match() {
    let code = ErasmusCode::try_from("E  MADRID03").unwrap();
    match lookup_step(&code, LookupStage::Matches, LookupEvent::Matches(vec![uni("Madrid", None)])) {
        LookupStep::Done(Ok(u)) => assert_eq!(u.city, "Madrid"),
        other => panic!("unexpected {other:?}"),
    }
    match lookup_step(
        &code,
        LookupStage::Matches,
        LookupEvent::Matches(vec![uni("Madrid", None), uni("Getafe", None)]),
    ) {
        LookupStep::Done(Err(GetUniCitySolvableProblem::MultipleOptions(v))) => assert_eq!(v.len(), 2),
        other => panic!("unexpected {other:?}"),
    }
}

#[test]
fn lookup_runs_its_queries_in_order() {
    let code = ErasmusCode::try_from("E  MADRID03").unwrap();
    let stage = match lookup_step(&code, LookupStage::Matches, LookupEvent::Matches(Vec::new())) {
        LookupStep::Ask(s) => s,
        other => panic!("unexpected {other:?}"),
    };
    assert!(matches!(stage, LookupStage::OtherCountry));
    let stage = match lookup_step(&code, stage, LookupEvent::OtherCountry(None)) {
        LookupStep::Ask(s) => s,
        other => panic!("unexpected {other:?}"),
    };
    assert!(matches!(stage, LookupStage::CityNames));
    let stage = match lookup_step(&code, stage, LookupEvent::CityNames(vec!["Madrid".into()])) {
        LookupStep::Ask(s) => s,
        other => panic!("unexpected {other:?}"),
    };
    assert!(matches!(&stage, LookupStage::CountryCount { names } if names.len() == 1));
    match lookup_step(&code, stage, LookupEvent::CountryCount(0)) {
        LookupStep::Done(Err(GetUniCitySolvableProblem::UniDoesntExist { city, uni })) => {
            assert_eq!(uni, 3);
            assert_eq!(city.region(), "MADRID");
            assert_eq!(names(&city), vec!["Madrid".to_string()]);
            assert!(!city.is_known());
        }
        other => panic!("unexpected {other:?}"),
    }
}

#[test]
fn lookup_stops_at_wrong_country() {
    let code = ErasmusCode::try_from("E  MADRID03").unwrap();
    let c = Country { erasmus_code: "P".into(), name: "Portugal".into(), iso_code: "PT".into() };
    match lookup_step(&code, LookupStage::OtherCountry, LookupEvent::OtherCountry(Some(c))) {
        LookupStep::Done(Err(GetUniCitySolvableProblem::CountryWrong(c))) => assert_eq!(c.erasmus_code, "P"),
        other => panic!("unexpected {other:?}"),
    }
}
