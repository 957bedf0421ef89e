//! Rows and identifiers of the university database.
use vstd::prelude::*;

verus! {

/// The city of a university, and its name where the database has one.
#[derive(Debug)]
pub struct UniCity {
    pub uni: Option<String>,
    pub city: String,
}

/// A country: its Erasmus code, its name and its ISO code.
#[derive(Debug)]
pub struct Country {
    pub erasmus_code: String,
    pub name: String,
    pub iso_code: String,
}

/// A country code, and whether the database knows the country.
#[derive(Debug)]
pub struct CountryId {
    code: String,
    known: bool,
}

/// The contents of a `CountryId`.
pub struct CountryIdView {
    pub code: Seq<char>,
    pub known: bool,
}

impl View for CountryId {
    type V = CountryIdView;

    closed spec fn view(&self) -> CountryIdView {
        CountryIdView { code: self.code@, known: self.known }
    }
}

impl CountryId {
    pub fn new(code: String, known: bool) -> (r: Self)
        ensures
            r@ == (CountryIdView { code: code@, known }),
    {
        Self { code, known }
    }

    pub fn is_known(&self) -> (r: bool)
        ensures
            r == self@.known,
    {
        self.known
    }

    pub fn code(&self) -> (r: &str)
        ensures
            r@ == self@.code,
    {
        self.code.as_str()
    }
}

/// The city names found for a region: one, several, or none.
#[derive(Debug)]
enum CityData {
    Single { name: String },
    Multiple { names: Vec<String> },
    Empty,
}

/// The contents of the city names found for a region.
pub enum CityDataView {
    Single(Seq<char>),
    Multiple(Seq<Seq<char>>),
    Empty,
}

/// The text of each string in `v`.
pub open spec fn texts(v: Seq<String>) -> Seq<Seq<char>> {
    v.map_values(|s: String| s@)
}

/// The texts of a list of strings are its strings' texts, one for one.
pub proof fn lemma_texts(v: Seq<String>)
    ensures
        texts(v).len() == v.len(),
        forall|i: int| 0 <= i < v.len() ==> #[trigger] texts(v)[i] == v[i]@,
{
}

/// The names in order, however many there are.
pub open spec fn city_names(d: CityDataView) -> Seq<Seq<char>> {
    match d {
        CityDataView::Single(name) => seq![name],
        CityDataView::Multiple(names) => names,
        CityDataView::Empty => Seq::empty(),
    }
}

impl View for CityData {
    type V = CityDataView;

    closed spec fn view(&self) -> CityDataView {
        match self {
            CityData::Single { name } => CityDataView::Single(name@),
            CityData::Multiple { names } => CityDataView::Multiple(texts(names@)),
            CityData::Empty => CityDataView::Empty,
        }
    }
}

/// The iterator that starts on the names of `d`: of the same kind, at the
/// first name.
pub open spec fn starts_on(r: CityNameIter<'_>, d: CityDataView) -> bool {
    match d {
        CityDataView::Single(name) => r matches CityNameIter::Single(Some(s)) && s@ == name,
        CityDataView::Multiple(names) => r matches CityNameIter::Multiple(v, 0) && texts(v@)
            == names,
        CityDataView::Empty => r is Empty,
    }
}

impl CityData {
    fn iter(&self) -> (r: CityNameIter<'_>)
        ensures
            r@ == city_names(self@),
            starts_on(r, self@),
    {
        match self {
            CityData::Single { name } => CityNameIter::Single(Some(name.as_str())),
            CityData::Multiple { names } => {
                assert(names@.skip(0) =~= names@);
                CityNameIter::Multiple(names, 0)
            },
            CityData::Empty => CityNameIter::Empty,
        }
    }
}

/// A region of a country with the city names the database has for it.
#[derive(Debug)]
pub struct CityId {
    region: String,
    data: CityData,
    country: CountryId,
}

/// The contents of a `CityId`.
pub struct CityIdView {
    pub region: Seq<char>,
    pub data: CityDataView,
    pub country: CountryIdView,
}

impl View for CityId {
    type V = CityIdView;

    closed spec fn view(&self) -> CityIdView {
        CityIdView { region: self.region@, data: self.data@, country: self.country@ }
    }
}

impl CityId {
    /// A region for which the database has no city.
    pub fn new_inexistant(region: String, country: CountryId) -> (r: Self)
        ensures
            r@ == (CityIdView { region: region@, data: CityDataView::Empty, country: country@ }),
    {
        Self { region, data: CityData::Empty, country }
    }

    /// A region with exactly one city.
    pub fn new_single(region: String, name: String, country: CountryId) -> (r: Self)
        ensures
            r@ == (CityIdView {
                region: region@,
                data: CityDataView::Single(name@),
                country: country@,
            }),
    {
        Self { region, data: CityData::Single { name }, country }
    }

    /// A region with several cities.
    pub fn new_multiple(region: String, names: Vec<String>, country: CountryId) -> (r: Self)
        ensures
            r@ == (CityIdView {
                region: region@,
                data: CityDataView::Multiple(texts(names@)),
                country: country@,
            }),
    {
        Self { region, data: CityData::Multiple { names }, country }
    }

    /// Whether the region has a city and its country is known.
    pub fn is_known(&self) -> (r: bool)
        ensures
            r == (!(self@.data is Empty) && self@.country.known),
    {
        !matches!(self.data, CityData::Empty) && self.country.is_known()
    }

    pub fn region(&self) -> (r: &str)
        ensures
            r@ == self@.region,
    {
        self.region.as_str()
    }

    /// The city names of the region, in order.
    pub fn name(&self) -> (r: CityNameIter<'_>)
        ensures
            r@ == city_names(self@.data),
            starts_on(r, self@.data),
    {
        self.data.iter()
    }

    pub fn country_code(&self) -> (r: &str)
        ensures
            r@ == self@.country.code,
    {
        self.country.code()
    }
}

/// The city names of a region, handed out one at a time.
#[derive(Debug, Clone, Copy)]
pub enum CityNameIter<'a> {
    Single(Option<&'a str>),
    Multiple(&'a Vec<String>, usize),
    Empty,
}

impl<'a> View for CityNameIter<'a> {
    type V = Seq<Seq<char>>;

    /// The names still to come.
    open spec fn view(&self) -> Seq<Seq<char>> {
        match *self {
            CityNameIter::Single(Some(name)) => seq![name@],
            CityNameIter::Single(None) => Seq::empty(),
            CityNameIter::Multiple(names, next) => if next <= names@.len() {
                texts(names@).skip(next as int)
            } else {
                Seq::empty()
            },
            CityNameIter::Empty => Seq::empty(),
        }
    }
}

impl<'a> CityNameIter<'a> {
    /// The next name, if any is left.
    pub fn next(&mut self) -> (r: Option<&'a str>)
        ensures
            old(self)@.len() > 0 ==> (r matches Some(name) && name@ == old(self)@[0]
                && final(self)@ == old(self)@.drop_first()),
            old(self)@.len() == 0 ==> r is None && final(self)@ == old(self)@,
            match *old(self) {
                CityNameIter::Single(_) => *final(self) == CityNameIter::<'a>::Single(None),
                CityNameIter::Multiple(names, next) => if next < names@.len() {
                    *final(self) == CityNameIter::Multiple(names, (next + 1) as usize)
                } else {
                    *final(self) == *old(self)
                },
                CityNameIter::Empty => *final(self) == CityNameIter::<'a>::Empty,
            },
    {
        match *self {
            CityNameIter::Single(name) => {
                *self = CityNameIter::Single(None);
                name
            },
            CityNameIter::Multiple(names, next) => {
                if next < names.len() {
                    *self = CityNameIter::Multiple(names, next + 1);
                    assert(texts(names@).skip(next + 1) =~= texts(names@).skip(next as int).drop_first());
                    Some(names[next].as_str())
                } else {
                    None
                }
            },
            CityNameIter::Empty => None,
        }
    }

    /// The size hint of an iterator over no city: nothing is left.  It is
    /// only callable on the `Empty` kind.
    pub fn size_hint(&self) -> (r: (usize, Option<usize>))
        requires
            *self is Empty,
        ensures
            r == (0usize, Some(0usize)),
            r.0 == self@.len(),
    {
        (0, Some(0))
    }
}

} // verus!
