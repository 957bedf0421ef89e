//! Errors of a university lookup, and the decisions taken on what the
//! queries of a lookup find.
use vstd::prelude::*;

use crate::database::model::{
    city_names, texts, CityDataView, CityId, CountryId, CountryIdView, Country, UniCity,
};
use crate::erasmus_code::ErasmusCode;

verus! {

/// The error type of the `sqlx` crate, carried through as it is.
#[verifier::external_type_specification]
#[verifier::external_body]
pub struct ExSqlxError(sqlx::Error);

/// Why a lookup of a university by its code failed.
#[derive(Debug)]
pub enum GetUniCityError {
    /// The database could not be queried.
    SqlxError(sqlx::Error),
    /// The data has a problem that a user can solve.
    SolvableProblem(GetUniCitySolvableProblem),
}

/// A problem with a code that a user can solve.
#[derive(Debug)]
pub enum GetUniCitySolvableProblem {
    /// Several universities have the code.
    MultipleOptions(Vec<UniCity>),
    /// A university with the region and number exists in another country.
    CountryWrong(Country),
    /// No university has the code; what the database has of its region.
    UniDoesntExist { city: CityId, uni: u32 },
}

impl From<GetUniCitySolvableProblem> for GetUniCityError {
    fn from(value: GetUniCitySolvableProblem) -> (r: Self) {
        GetUniCityError::SolvableProblem(value)
    }
}

impl vstd::std_specs::convert::FromSpecImpl<GetUniCitySolvableProblem> for GetUniCityError {
    open spec fn obeys_from_spec() -> bool {
        true
    }

    open spec fn from_spec(v: GetUniCitySolvableProblem) -> Self {
        GetUniCityError::SolvableProblem(v)
    }
}

impl From<sqlx::Error> for GetUniCityError {
    fn from(value: sqlx::Error) -> (r: Self) {
        GetUniCityError::SqlxError(value)
    }
}

impl vstd::std_specs::convert::FromSpecImpl<sqlx::Error> for GetUniCityError {
    open spec fn obeys_from_spec() -> bool {
        true
    }

    open spec fn from_spec(v: sqlx::Error) -> Self {
        GetUniCityError::SqlxError(v)
    }
}

/// What the lookup of a code by country, region and number found.
#[derive(Debug)]
pub enum UniLookup {
    /// Exactly one university.
    Found(UniCity),
    /// Several universities: a problem to report.
    Problem(GetUniCitySolvableProblem),
    /// None: the lookup goes on to find out why.
    NotFound,
}

/// Decides on the rows that the lookup of a code returned: one row is the
/// answer, several are a problem, none asks for a diagnosis.
pub fn classify_uni_matches(res: Vec<UniCity>) -> (r: UniLookup)
    ensures
        res.len() == 0 <==> r is NotFound,
        res.len() == 1 ==> r == UniLookup::Found(res@[0]),
        res.len() > 1 ==> r == UniLookup::Problem(GetUniCitySolvableProblem::MultipleOptions(res)),
{
    let mut res = res;
    let n = res.len();
    if n == 0 {
        UniLookup::NotFound
    } else if n == 1 {
        UniLookup::Found(res.remove(0))
    } else {
        UniLookup::Problem(GetUniCitySolvableProblem::MultipleOptions(res))
    }
}

/// The first diagnosis of a code that matched no university: a university
/// with the same region and number in another country means the country is
/// wrong.
pub fn wrong_country(found: Option<Country>) -> (r: Option<GetUniCitySolvableProblem>)
    ensures
        match found {
            Some(c) => r == Some(GetUniCitySolvableProblem::CountryWrong(c)),
            None => r is None,
        },
{
    match found {
        Some(c) => Some(GetUniCitySolvableProblem::CountryWrong(c)),
        None => None,
    }
}

/// What the region's city names make of it: none, one, or several.
pub open spec fn city_data_of(names: Seq<Seq<char>>) -> CityDataView {
    if names.len() == 0 {
        CityDataView::Empty
    } else if names.len() == 1 {
        CityDataView::Single(names[0])
    } else {
        CityDataView::Multiple(names)
    }
}

/// The last diagnosis of a code that matched no university: the
/// university does not exist, with the city names found for its region and
/// whether its country is known (`country_count` countries have its code).
pub fn uni_doesnt_exist(code: &ErasmusCode, names: Vec<String>, country_count: i64) -> (r:
    GetUniCitySolvableProblem)
    ensures
        r matches GetUniCitySolvableProblem::UniDoesntExist { city, uni } && uni
            == code@.universidad && city@.region == code@.region && city@.country == (
        CountryIdView { code: code@.pais, known: country_count != 0 }) && city@.data
            == city_data_of(texts(names@)) && city_names(city@.data) == texts(names@),
{
    proof {
        lemma_city_data_of(texts(names@));
    }
    let mut names = names;
    let country = CountryId::new(String::from_str(code.pais()), country_count != 0);
    let region = String::from_str(code.region());
    let n = names.len();
    let city = if n == 0 {
        CityId::new_inexistant(region, country)
    } else if n == 1 {
        let name = names.remove(0);
        CityId::new_single(region, name, country)
    } else {
        CityId::new_multiple(region, names, country)
    };
    GetUniCitySolvableProblem::UniDoesntExist { city, uni: code.universidad() }
}

/// The queries of a lookup, in the order they run.
#[derive(Debug)]
pub enum LookupStage {
    /// The universities with the code's country, region and number.
    Matches,
    /// A university with the code's region and number in another country.
    OtherCountry,
    /// The city names of the code's region.
    CityNames,
    /// How many countries have the code's country code; the city names
    /// found before.
    CountryCount { names: Vec<String> },
}

/// What a query of a lookup found.
#[derive(Debug)]
pub enum LookupEvent {
    Matches(Vec<UniCity>),
    OtherCountry(Option<Country>),
    CityNames(Vec<String>),
    CountryCount(i64),
}

/// What a lookup does next: run another query, or answer.
#[derive(Debug)]
pub enum LookupStep {
    Ask(LookupStage),
    Done(Result<UniCity, GetUniCitySolvableProblem>),
}

/// Whether `event` is what the query of `stage` finds.
pub open spec fn answers(stage: LookupStage, event: LookupEvent) -> bool {
    match stage {
        LookupStage::Matches => event is Matches,
        LookupStage::OtherCountry => event is OtherCountry,
        LookupStage::CityNames => event is CityNames,
        LookupStage::CountryCount { .. } => event is CountryCount,
    }
}

/// The lookup of `code`, one query at a time: given the stage it is at and
/// what that stage's query found, the next query or the answer.  The
/// queries run in order: the matches; where there is none, a university in
/// another country; where there is none either, the region's city names and
/// then the count of the code's country.
pub fn lookup_step(code: &ErasmusCode, stage: LookupStage, event: LookupEvent) -> (r: LookupStep)
    requires
        answers(stage, event),
    ensures
        match (stage, event) {
            (LookupStage::Matches, LookupEvent::Matches(res)) => if res.len() == 0 {
                r matches LookupStep::Ask(LookupStage::OtherCountry)
            } else if res.len() == 1 {
                r == LookupStep::Done(Ok(res@[0]))
            } else {
                r == LookupStep::Done(Err(GetUniCitySolvableProblem::MultipleOptions(res)))
            },
            (LookupStage::OtherCountry, LookupEvent::OtherCountry(found)) => match found {
                Some(c) => r == LookupStep::Done(Err(GetUniCitySolvableProblem::CountryWrong(c))),
                None => r matches LookupStep::Ask(LookupStage::CityNames),
            },
            (LookupStage::CityNames, LookupEvent::CityNames(names)) => r == LookupStep::Ask(
                LookupStage::CountryCount { names },
            ),
            (LookupStage::CountryCount { names }, LookupEvent::CountryCount(n)) => r matches
                LookupStep::Done(Err(GetUniCitySolvableProblem::UniDoesntExist { city, uni }))
                && uni == code@.universidad && city@.region == code@.region && city@.country == (
            CountryIdView { code: code@.pais, known: n != 0 }) && city@.data == city_data_of(
                texts(names@),
            ),
            _ => false,
        },
{
    match (stage, event) {
        (LookupStage::Matches, LookupEvent::Matches(res)) => match classify_uni_matches(res) {
            UniLookup::Found(x) => LookupStep::Done(Ok(x)),
            UniLookup::Problem(p) => LookupStep::Done(Err(p)),
            UniLookup::NotFound => LookupStep::Ask(LookupStage::OtherCountry),
        },
        (LookupStage::OtherCountry, LookupEvent::OtherCountry(found)) => match wrong_country(found) {
            Some(p) => LookupStep::Done(Err(p)),
            None => LookupStep::Ask(LookupStage::CityNames),
        },
        (LookupStage::CityNames, LookupEvent::CityNames(names)) => LookupStep::Ask(
            LookupStage::CountryCount { names },
        ),
        (LookupStage::CountryCount { names }, LookupEvent::CountryCount(n)) => LookupStep::Done(
            Err(uni_doesnt_exist(code, names, n)),
        ),
        _ => {
            assert(false);
            LookupStep::Ask(LookupStage::Matches)
        },
    }
}

/// The city data made of the names found for a region holds every one of
/// them, in order: none is no city, one is a single city, more are a list.
pub proof fn lemma_city_data_of(names: Seq<Seq<char>>)
    ensures
        city_names(city_data_of(names)) == names,
        names.len() == 0 <==> city_data_of(names) is Empty,
        names.len() == 1 <==> city_data_of(names) is Single,
        names.len() > 1 <==> city_data_of(names) is Multiple,
{
    if names.len() == 1 {
        assert(seq![names[0]] =~= names);
    }
}

} // verus!
