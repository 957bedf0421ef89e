//! Loading a CSV file of destinations: reading its records, finding the
//! Erasmus code of each, and deciding whether the load as a whole stands.
use vstd::prelude::*;

use crate::database::generic::GetUniCityError;
use crate::database::model::{texts, UniCity};
use crate::erasmus_code::{parse_erasmus_code, ErasmusCode};
use crate::text::{
    lemma_replace_crlf_pair, replace_crlf, replace_crlf_str, replace_lf, replace_lf_str,
};

verus! {

/// Which columns of the file hold what, and whether its first row is a
/// header.
#[derive(Debug)]
pub struct Posicion {
    pub codigo_erasmus: usize,
    pub nivel_estudios: Option<usize>,
    pub plazas: Option<usize>,
    pub meses: Option<usize>,
    pub idioma: Option<usize>,
    pub observaciones: Option<usize>,
    pub header: bool,
}

/// The error type of the `csv` crate, carried through as it is.
#[verifier::external_type_specification]
#[verifier::external_body]
pub struct ExCsvError(csv::Error);

/// Why a load failed: the records that failed, each with its number.
#[derive(Debug)]
pub enum LoadCsvError {
    RecordErrors(Vec<(usize, LoadCsvRecordError)>),
}

/// Why one record of the file failed.
#[derive(Debug)]
pub enum LoadCsvRecordError {
    /// The record could not be read.
    Csv(csv::Error),
    /// The university of the code could not be found.
    GetUniCity(GetUniCityError),
    /// The text in the code column is not an Erasmus code.
    ParseErasmusCode(String),
    /// The record has no code column.
    GetErasmusCode,
}

/// What the `csv` crate reads from `data`: for each record in order, its
/// fields, or `None` where it reports an error for the record.
pub uninterp spec fn csv_records(data: Seq<char>, has_headers: bool) -> Seq<
    Option<Seq<Seq<char>>>,
>;

/// Reads `data` with a `csv::Reader` built by `csv::ReaderBuilder` (double
/// quotes on, the first row a header where `has_headers`) and collects what
/// `Reader::records` yields, each record as its fields.  Trusted: the
/// records are those named `csv_records(data, has_headers)`, one for one and
/// in order; what that name is on a given text is not stated.
#[verifier::external_body]
fn read_csv_records(data: &str, has_headers: bool) -> (r: Vec<Result<Vec<String>, csv::Error>>)
    ensures
        r@.len() == csv_records(data@, has_headers).len(),
        forall|i: int|
            0 <= i < r@.len() ==> match #[trigger] r@[i] {
                Ok(fields) => csv_records(data@, has_headers)[i] == Some(texts(fields@)),
                Err(_) => csv_records(data@, has_headers)[i] is None,
            },
{
    let mut reader = csv::ReaderBuilder::new().double_quote(true).has_headers(
        has_headers,
    ).from_reader(data.as_bytes());
    reader.records().map(|r| r.map(|rec| rec.iter().map(String::from).collect())).collect()
}

/// What a record with `fields` gives for the code in column `col`: no such
/// column, a text that is not a code, or the code it reads as.
pub open spec fn code_outcome(
    fields: Seq<Seq<char>>,
    col: usize,
    r: Result<ErasmusCode, LoadCsvRecordError>,
) -> bool {
    if col >= fields.len() {
        r matches Err(LoadCsvRecordError::GetErasmusCode)
    } else {
        match parse_erasmus_code(fields[col as int]) {
            None => r matches Err(LoadCsvRecordError::ParseErasmusCode(t)) && t@ == fields[col as int],
            Some(v) => r matches Ok(c) && c@ == v,
        }
    }
}

/// The Erasmus code in the code column of a record.
pub fn erasmus_code_of_record(record: &Vec<String>, info: &Posicion) -> (r: Result<
    ErasmusCode,
    LoadCsvRecordError,
>)
    ensures
        code_outcome(texts(record@), info.codigo_erasmus, r),
{
    let col = info.codigo_erasmus;
    if col >= record.len() {
        return Err(LoadCsvRecordError::GetErasmusCode);
    }
    let text = record[col].as_str();
    match ErasmusCode::try_from(text) {
        Ok(code) => Ok(code),
        Err(()) => Err(LoadCsvRecordError::ParseErasmusCode(String::from_str(text))),
    }
}

/// For each record in order, its Erasmus code or why it has none: a record
/// that could not be read keeps its error.
pub fn erasmus_codes_of_records(
    records: Vec<Result<Vec<String>, csv::Error>>,
    info: &Posicion,
) -> (r: Vec<Result<ErasmusCode, LoadCsvRecordError>>)
    ensures
        r@.len() == records@.len(),
        forall|i: int|
            0 <= i < r@.len() ==> match records@[i] {
                Err(e) => #[trigger] r@[i] == Err::<ErasmusCode, LoadCsvRecordError>(
                    LoadCsvRecordError::Csv(e),
                ),
                Ok(fields) => code_outcome(texts(fields@), info.codigo_erasmus, r@[i]),
            },
{
    let ghost all = records@;
    let mut records = records;
    let n = records.len();
    let mut out: Vec<Result<ErasmusCode, LoadCsvRecordError>> = Vec::new();
    for i in 0..n
        invariant
            n == all.len(),
            records@ == all.skip(i as int),
            out@.len() == i,
            forall|k: int|
                0 <= k < i ==> match all[k] {
                    Err(e) => #[trigger] out@[k] == Err::<ErasmusCode, LoadCsvRecordError>(
                        LoadCsvRecordError::Csv(e),
                    ),
                    Ok(fields) => code_outcome(texts(fields@), info.codigo_erasmus, out@[k]),
                },
    {
        assert(records@[0] == all[i as int]);
        let record = records.remove(0);
        assert(records@ =~= all.skip(i + 1));
        let outcome = match record {
            Ok(fields) => erasmus_code_of_record(&fields, info),
            Err(e) => Err(LoadCsvRecordError::Csv(e)),
        };
        out.push(outcome);
    }
    out
}

/// Reads `data` as CSV and gives, for each record in order, its Erasmus
/// code or why it has none.
pub fn erasmus_codes(data: &str, info: &Posicion) -> (r: Vec<Result<ErasmusCode, LoadCsvRecordError>>)
    ensures
        r@.len() == csv_records(data@, info.header).len(),
        forall|i: int|
            0 <= i < r@.len() ==> match csv_records(data@, info.header)[i] {
                None => #[trigger] r@[i] matches Err(LoadCsvRecordError::Csv(_)),
                Some(fields) => code_outcome(fields, info.codigo_erasmus, r@[i]),
            },
{
    let records = read_csv_records(data, info.header);
    let ghost all = records@;
    let r = erasmus_codes_of_records(records, info);
    assert forall|i: int| 0 <= i < r@.len() implies match csv_records(data@, info.header)[i] {
        None => #[trigger] r@[i] matches Err(LoadCsvRecordError::Csv(_)),
        Some(fields) => code_outcome(fields, info.codigo_erasmus, r@[i]),
    } by {
        assert(all[i] == all[i]);
    }
    r
}

/// What a record comes to once its university has been looked up: the
/// record fails where the lookup failed.
pub fn lookup_outcome(found: Result<UniCity, GetUniCityError>) -> (r: Result<(), LoadCsvRecordError>)
    ensures
        r == lookup_result(found),
{
    match found {
        Ok(_) => Ok(()),
        Err(e) => Err(LoadCsvRecordError::GetUniCity(e)),
    }
}

/// The failed records among `outcomes`, each with its number, in order.
pub open spec fn failures(outcomes: Seq<Result<(), LoadCsvRecordError>>) -> Seq<
    (usize, LoadCsvRecordError),
>
    decreases outcomes.len(),
{
    if outcomes.len() == 0 {
        Seq::empty()
    } else {
        let before = failures(outcomes.drop_last());
        match outcomes.last() {
            Ok(_) => before,
            Err(e) => before.push(((outcomes.len() - 1) as usize, e)),
        }
    }
}

/// There are no failures exactly where every record succeeded.
pub proof fn lemma_no_failures(outcomes: Seq<Result<(), LoadCsvRecordError>>)
    ensures
        failures(outcomes).len() == 0 <==> forall|i: int|
            0 <= i < outcomes.len() ==> #[trigger] outcomes[i] is Ok,
    decreases outcomes.len(),
{
    if outcomes.len() > 0 {
        lemma_no_failures(outcomes.drop_last());
        if failures(outcomes).len() == 0 {
            assert forall|i: int| 0 <= i < outcomes.len() implies #[trigger] outcomes[i] is Ok by {
                if i < outcomes.len() - 1 {
                    assert(outcomes.drop_last()[i] == outcomes[i]);
                }
            }
        } else {
            assert(forall|i: int| 0 <= i < outcomes.drop_last().len() ==> outcomes.drop_last()[i]
                == outcomes[i]);
        }
    }
}

/// The result of a load from what became of each record: success where
/// every record succeeded (the load is then committed), else every failure
/// with the number of its record (the load is then rolled back).
pub fn load_result(outcomes: Vec<Result<(), LoadCsvRecordError>>) -> (r: Result<(), LoadCsvError>)
    ensures
        r is Ok <==> forall|i: int| 0 <= i < outcomes@.len() ==> #[trigger] outcomes@[i] is Ok,
        r matches Err(LoadCsvError::RecordErrors(v)) ==> v@ == failures(outcomes@),
{
    proof {
        lemma_no_failures(outcomes@);
    }
    let ghost all = outcomes@;
    let mut outcomes = outcomes;
    let n = outcomes.len();
    let mut errores: Vec<(usize, LoadCsvRecordError)> = Vec::new();
    for i in 0..n
        invariant
            n == all.len(),
            outcomes@ == all.skip(i as int),
            errores@ == failures(all.take(i as int)),
    {
        assert(outcomes@[0] == all[i as int]);
        let outcome = outcomes.remove(0);
        assert(outcomes@ =~= all.skip(i + 1));
        assert(all.take(i + 1).drop_last() =~= all.take(i as int));
        match outcome {
            Ok(()) => {},
            Err(e) => errores.push((i, e)),
        }
    }
    assert(all.take(n as int) =~= all);
    if errores.len() == 0 {
        Ok(())
    } else {
        Err(LoadCsvError::RecordErrors(errores))
    }
}

/// A field as it is kept: each line break (`"\r\n"`, then `'\n'`)
/// becomes a space.
pub open spec fn clean_field(s: Seq<char>) -> Seq<char> {
    replace_lf(replace_crlf(s))
}

/// A cleaned field holds no line feed: it stays on one line.
pub proof fn lemma_clean_field_one_line(s: Seq<char>)
    ensures
        forall|i: int| 0 <= i < clean_field(s).len() ==> #[trigger] clean_field(s)[i] != '\n',
{
}

/// The field in column `pos` of a record, its line breaks turned into
/// spaces; `None` where no column is given or the record has no such
/// column.
pub fn get_elem(pos: Option<usize>, record: &Vec<String>) -> (r: Option<String>)
    ensures
        match pos {
            Some(x) => if x < record@.len() {
                r matches Some(t) && t@ == clean_field(record@[x as int]@)
            } else {
                r is None
            },
            None => r is None,
        },
{
    match pos {
        Some(x) => if x < record.len() {
            let once = replace_crlf_str(record[x].as_str());
            Some(replace_lf_str(once.as_str()))
        } else {
            None
        },
        None => None,
    }
}

/// What a load of destinations does next.
#[derive(Debug)]
pub enum LoadAction {
    /// Begin the transaction that the load runs in.
    Begin,
    /// Look up the university of this code, the next record's.
    LookUp(ErasmusCode),
    /// The next record failed already; nothing to run.
    Skip,
    /// Every record succeeded: commit, and the load succeeds.
    Commit,
    /// Some record failed: roll back, and the load fails with this error.
    Rollback(LoadCsvError),
}

/// A load of destinations in progress: the records still to handle, what
/// became of those handled, and where the load stands.
#[derive(Debug)]
pub struct CsvLoad {
    pending: Vec<Result<ErasmusCode, LoadCsvRecordError>>,
    outcomes: Vec<Result<(), LoadCsvRecordError>>,
    begun: bool,
    awaiting: bool,
    finished: bool,
}

/// The contents of a `CsvLoad`.
pub struct CsvLoadView {
    /// The code of each record still to handle, or why it has none.
    pub pending: Seq<Result<ErasmusCode, LoadCsvRecordError>>,
    /// What became of each record handled, in order.
    pub outcomes: Seq<Result<(), LoadCsvRecordError>>,
    /// The transaction has begun.
    pub begun: bool,
    /// A lookup was asked for and its result is awaited.
    pub awaiting: bool,
    /// The load has committed or rolled back.
    pub finished: bool,
}

impl View for CsvLoad {
    type V = CsvLoadView;

    closed spec fn view(&self) -> CsvLoadView {
        CsvLoadView {
            pending: self.pending@,
            outcomes: self.outcomes@,
            begun: self.begun,
            awaiting: self.awaiting,
            finished: self.finished,
        }
    }
}

/// What a record comes to from the result of its lookup.
pub open spec fn lookup_result(found: Result<UniCity, GetUniCityError>) -> Result<
    (),
    LoadCsvRecordError,
> {
    match found {
        Ok(_) => Ok(()),
        Err(e) => Err(LoadCsvRecordError::GetUniCity(e)),
    }
}

/// How a load of `data` laid out as `info` starts: nothing has run, and
/// each record's code is read, or why it has none.  No user stands in it:
/// whoever loads, a load starts, and so runs, the same way.
pub open spec fn starts_load(v: CsvLoadView, data: Seq<char>, info: Posicion) -> bool {
    &&& !v.begun && !v.awaiting && !v.finished
    &&& v.outcomes.len() == 0
    &&& v.pending.len() == csv_records(data, info.header).len()
    &&& forall|i: int|
        0 <= i < v.pending.len() ==> match csv_records(data, info.header)[i] {
            None => #[trigger] v.pending[i] matches Err(LoadCsvRecordError::Csv(_)),
            Some(fields) => code_outcome(fields, info.codigo_erasmus, v.pending[i]),
        }
}

impl CsvLoad {
    /// Starts the load of `data` by `usuario`: each record's code is read,
    /// and nothing has run yet.  The user has no bearing on the load: it
    /// stands nowhere in what the load holds.
    pub fn new(data: &str, info: &Posicion, usuario: &str) -> (r: CsvLoad)
        ensures
            starts_load(r@, data@, *info),
    {
        let pending = erasmus_codes(data, info);
        CsvLoad { pending, outcomes: Vec::new(), begun: false, awaiting: false, finished: false }
    }

    /// The next step of the load.  First the transaction begins.  Then each
    /// record in turn: a record with a code is looked up (its result is
    /// handed back by `found`), a record without one fails at once.  When
    /// no record is left, the load commits where every record succeeded and
    /// rolls back with every failure, numbered, where some failed.
    pub fn next(&mut self) -> (a: LoadAction)
        requires
            !old(self)@.awaiting,
            !old(self)@.finished,
        ensures
            !old(self)@.begun ==> a is Begin && final(self)@ == (CsvLoadView {
                begun: true,
                ..old(self)@
            }),
            old(self)@.begun && old(self)@.pending.len() > 0 ==> match old(self)@.pending[0] {
                Ok(code) => a == LoadAction::LookUp(code) && final(self)@ == (CsvLoadView {
                    pending: old(self)@.pending.drop_first(),
                    awaiting: true,
                    ..old(self)@
                }),
                Err(e) => a is Skip && final(self)@ == (CsvLoadView {
                    pending: old(self)@.pending.drop_first(),
                    outcomes: old(self)@.outcomes.push(Err(e)),
                    ..old(self)@
                }),
            },
            old(self)@.begun && old(self)@.pending.len() == 0 ==> {
                &&& final(self)@ == (CsvLoadView {
                    outcomes: Seq::empty(),
                    finished: true,
                    ..old(self)@
                })
                &&& (a is Commit <==> forall|i: int|
                    0 <= i < old(self)@.outcomes.len() ==> #[trigger] old(self)@.outcomes[i] is Ok)
                &&& (a is Commit || (a matches LoadAction::Rollback(
                    LoadCsvError::RecordErrors(v),
                ) && v@ == failures(old(self)@.outcomes)))
            },
    {
        if !self.begun {
            self.begun = true;
            return LoadAction::Begin;
        }
        if self.pending.len() > 0 {
            let next = self.pending.remove(0);
            match next {
                Ok(code) => {
                    self.awaiting = true;
                    LoadAction::LookUp(code)
                },
                Err(e) => {
                    self.outcomes.push(Err(e));
                    LoadAction::Skip
                },
            }
        } else {
            let mut outcomes = Vec::new();
            std::mem::swap(&mut outcomes, &mut self.outcomes);
            self.finished = true;
            match load_result(outcomes) {
                Ok(()) => LoadAction::Commit,
                Err(e) => LoadAction::Rollback(e),
            }
        }
    }

    /// Hands back the result of the lookup that `next` asked for: the
    /// record fails where the lookup failed.
    pub fn found(&mut self, result: Result<UniCity, GetUniCityError>)
        requires
            old(self)@.awaiting,
        ensures
            final(self)@ == (CsvLoadView {
                outcomes: old(self)@.outcomes.push(lookup_result(result)),
                awaiting: false,
                ..old(self)@
            }),
    {
        let outcome = lookup_outcome(result);
        self.outcomes.push(outcome);
        self.awaiting = false;
    }
}

/// A looked-up record fails exactly when its lookup failed, and then with
/// the lookup's own error.
pub proof fn lemma_lookup_result(found: Result<UniCity, GetUniCityError>)
    ensures
        lookup_result(found) is Ok <==> found is Ok,
        found matches Err(e) ==> lookup_result(found) == Err::<(), LoadCsvRecordError>(
            LoadCsvRecordError::GetUniCity(e),
        ),
{
}

/// The failures of a load are exactly its failed records, each once, in
/// order of their numbers: every entry names a record that failed with
/// that error, the numbers rise, and every failed record has its entry.
pub proof fn lemma_failures(o: Seq<Result<(), LoadCsvRecordError>>)
    requires
        o.len() <= usize::MAX,
    ensures
        forall|k: int|
            0 <= k < failures(o).len() ==> (#[trigger] failures(o)[k]).0 < o.len() && o[
                failures(o)[k].0 as int] == Err::<(), LoadCsvRecordError>(failures(o)[k].1),
        forall|k: int, l: int|
            0 <= k < l < failures(o).len() ==> (#[trigger] failures(o)[k]).0 < (
            #[trigger] failures(o)[l]).0,
        forall|i: int|
            0 <= i < o.len() && (#[trigger] o[i]) is Err ==> exists|k: int|
                0 <= k < failures(o).len() && #[trigger] failures(o)[k] == (
                i as usize,
                o[i]->Err_0,
                ),
    decreases o.len(),
{
    if o.len() > 0 {
        let before = o.drop_last();
        lemma_failures(before);
        let fb = failures(before);
        let f = failures(o);
        assert forall|i: int| 0 <= i < before.len() implies before[i] == o[i] by {}
        match o.last() {
            Ok(_) => {
                assert(f == fb);
                assert forall|i: int| 0 <= i < o.len() && (#[trigger] o[i]) is Err implies exists|
                    k: int,
                | 0 <= k < f.len() && #[trigger] f[k] == (i as usize, o[i]->Err_0) by {
                    assert(i < before.len());
                    assert(before[i] == o[i]);
                }
            },
            Err(e) => {
                let last = (o.len() - 1) as usize;
                assert(f == fb.push((last, e)));
                assert forall|k: int| 0 <= k < f.len() implies (#[trigger] f[k]).0 < o.len() && o[
                    f[k].0 as int] == Err::<(), LoadCsvRecordError>(f[k].1) by {
                    if k < fb.len() {
                        assert(f[k] == fb[k]);
                    }
                }
                assert forall|k: int, l: int| 0 <= k < l < f.len() implies (#[trigger] f[k]).0 < (
                #[trigger] f[l]).0 by {
                    assert(f[k] == fb[k]);
                    if l < fb.len() {
                        assert(f[l] == fb[l]);
                    }
                }
                assert forall|i: int| 0 <= i < o.len() && (#[trigger] o[i]) is Err implies exists|
                    k: int,
                | 0 <= k < f.len() && #[trigger] f[k] == (i as usize, o[i]->Err_0) by {
                    if i < before.len() {
                        assert(before[i] == o[i]);
                        let k = choose|k: int|
                            0 <= k < fb.len() && #[trigger] fb[k] == (i as usize, before[i]->Err_0);
                        assert(f[k] == fb[k]);
                    } else {
                        assert(f[fb.len() as int] == (last, e));
                    }
                }
            },
        }
    }
}

/// What a record's code column gives: no column is `GetErasmusCode`, a
/// column that reads is the code it reads as, and one that does not read is
/// `ParseErasmusCode` with its text; no other error.
pub proof fn lemma_code_outcome(
    fields: Seq<Seq<char>>,
    col: usize,
    r: Result<ErasmusCode, LoadCsvRecordError>,
)
    requires
        code_outcome(fields, col, r),
    ensures
        col >= fields.len() <==> r matches Err(LoadCsvRecordError::GetErasmusCode),
        col < fields.len() ==> (r is Ok <==> parse_erasmus_code(fields[col as int]) is Some),
        r matches Ok(c) ==> parse_erasmus_code(fields[col as int]) == Some(c@),
        r matches Err(LoadCsvRecordError::ParseErasmusCode(t)) ==> t@ == fields[col as int],
        r is Err ==> r matches Err(LoadCsvRecordError::GetErasmusCode) || r matches Err(
            LoadCsvRecordError::ParseErasmusCode(_),
        ),
{
}

/// In a cleaned field a `"\r\n"` line break becomes one space and a lone
/// `'\n'` becomes one space; text without line breaks stays as it is.
pub proof fn lemma_clean_field_pair(a: Seq<char>, b: Seq<char>)
    requires
        forall|i: int| 0 <= i < a.len() ==> #[trigger] a[i] != '\r' && a[i] != '\n',
    ensures
        clean_field(a + seq!['\r', '\n'] + b) == a + seq![' '] + clean_field(b),
        clean_field(a + seq!['\n'] + b) == a + seq![' '] + clean_field(b),
{
    lemma_replace_crlf_pair(a, b);
    let rb = replace_crlf(b);
    assert(replace_lf(a + seq![' '] + rb) =~= a + seq![' '] + replace_lf(rb));
    lemma_replace_crlf_prefix_lf(a, b);
    assert(replace_lf(a + seq!['\n'] + rb) =~= a + seq![' '] + replace_lf(rb));
}

/// `replace_crlf` keeps a `'\n'` that follows text without carriage
/// returns.
proof fn lemma_replace_crlf_prefix_lf(a: Seq<char>, b: Seq<char>)
    requires
        forall|i: int| 0 <= i < a.len() ==> #[trigger] a[i] != '\r' && a[i] != '\n',
    ensures
        replace_crlf(a + seq!['\n'] + b) == a + seq!['\n'] + replace_crlf(b),
{
    let a2 = a + seq!['\n'];
    assert forall|i: int| 0 <= i < a2.len() implies #[trigger] a2[i] != '\r' by {
        if i < a.len() {
            assert(a2[i] == a[i]);
        }
    }
    crate::text::lemma_replace_crlf_prefix(a2, b);
}

/// How a load starts, spelled out: nothing has run, and there is one entry
/// per record that the file holds, in order, each the record's code, why it
/// has none, or the reading error.
pub proof fn lemma_starts_load(v: CsvLoadView, data: Seq<char>, info: Posicion)
    requires
        starts_load(v, data, info),
    ensures
        !v.begun && !v.awaiting && !v.finished,
        v.outcomes.len() == 0,
        v.pending.len() == csv_records(data, info.header).len(),
        forall|i: int|
            0 <= i < v.pending.len() && csv_records(data, info.header)[i] is None ==> (
            #[trigger] v.pending[i]) matches Err(LoadCsvRecordError::Csv(_)),
        forall|i: int|
            0 <= i < v.pending.len() && csv_records(data, info.header)[i] is Some ==> code_outcome(
                csv_records(data, info.header)[i]->0,
                info.codigo_erasmus,
                #[trigger] v.pending[i],
            ),
{
}

} // verus!
