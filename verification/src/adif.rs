//! Record assembly and the parsed-file model.
//!
//! The assembler folds the lexer's token stream into logical records: field
//! tags accumulate into a field map keyed by the ASCII-lowercased field name,
//! an end-of-record marker emits the accumulated record and resets, and an
//! end-of-header marker is a no-op separator.  Fields still accumulated when
//! the input ends without a final end-of-record marker are deliberately not
//! emitted: a record exists only once it is explicitly terminated.
//!
//! Duplicate-field policy: within one record the first occurrence of a field
//! name wins; later tags with the same (case-insensitively equal) name are
//! ignored.
//!
//! Free text before the first end-of-header marker is the file header and is
//! skipped; when no such marker occurs anywhere, the whole input is lexed as
//! having no header.

use vstd::prelude::*;

use crate::adi::AdiToken;
use crate::adi::LexStep;
use crate::adi::TokenModel;
use crate::adi::all_digits;
use crate::adi::digits_value;
use crate::adi::find_char;
use crate::adi::spec_next_token;
use crate::adi::lex_tokens;
use crate::adi::spec_lex_from;
use crate::adi::tokens_view;
use crate::ascii::spec_lower;
use crate::ascii::spec_to_lower;
use crate::ascii::lower_string;
use crate::ascii::push_char;
use crate::ascii::spec_upper;
use crate::ascii::str_eq;
use crate::ascii::to_char_vec;
use crate::ascii::to_lower;
use crate::call::Call;
use crate::call::CallView;
use crate::grid::Grid;
use crate::grid::GridError;
use crate::grid::valid_grid;
use crate::grid::valid_grid_len;
use crate::lotw::LoTWStatus;

verus! {

/// Any error the parser can report: an I/O failure text from the caller's
/// stream handling, malformed input, or a recognized-but-unsupported
/// construct.
#[allow(non_camel_case_types)]
#[derive(Debug)]
pub enum AdifParseError {
    ADIF_EIO(String),
    ADIF_EBADINPUT(String),
    ADIF_ENOT_YET_IMPLEMENTED(String),
}

impl AdifParseError {
    /// A human-readable rendering of the error.
    pub fn message(&self) -> (r: String)
        ensures
            match self {
                AdifParseError::ADIF_EIO(m) => r@ == "I/O error: "@ + m@,
                AdifParseError::ADIF_EBADINPUT(m) => r@ == "input error: "@ + m@,
                AdifParseError::ADIF_ENOT_YET_IMPLEMENTED(m) => r@ == "not yet implemented: "@
                    + m@,
            },
    {
        match self {
            AdifParseError::ADIF_EIO(m) => String::from_str("I/O error: ").concat(m.as_str()),
            AdifParseError::ADIF_EBADINPUT(m) => String::from_str("input error: ").concat(
                m.as_str(),
            ),
            AdifParseError::ADIF_ENOT_YET_IMPLEMENTED(m) => String::from_str(
                "not yet implemented: ",
            ).concat(m.as_str()),
        }
    }
}

/// The mathematical image of one record: the fields in insertion order, each
/// a (lowercased name, value) pair.
pub type RecModel = Seq<(Seq<char>, Seq<char>)>;

/// Index of the first entry with key `k`, if any.
pub open spec fn find_key(r: RecModel, k: Seq<char>) -> Option<int>
    decreases r.len(),
{
    if r.len() == 0 {
        None
    } else if r[0].0 == k {
        Some(0)
    } else {
        match find_key(r.drop_first(), k) {
            None => None,
            Some(j) => Some(j + 1),
        }
    }
}

/// The value stored under key `k`, if any.
pub open spec fn spec_get(r: RecModel, k: Seq<char>) -> Option<Seq<char>> {
    match find_key(r, k) {
        None => None,
        Some(j) => Some(r[j].1),
    }
}

/// First-occurrence-wins insertion: a key already present keeps its value.
pub open spec fn rec_insert(r: RecModel, k: Seq<char>, v: Seq<char>) -> RecModel {
    if find_key(r, k) is Some {
        r
    } else {
        r.push((k, v))
    }
}

/// One record's fields, in insertion order, keyed by lowercased field name.
#[derive(Debug)]
pub struct FieldMap {
    fields: Vec<(String, String)>,
}

impl View for FieldMap {
    type V = RecModel;

    closed spec fn view(&self) -> RecModel {
        self.fields@.map_values(|p: (String, String)| (p.0@, p.1@))
    }
}

impl FieldMap {
    /// An empty record accumulator.
    pub fn new() -> (r: FieldMap)
        ensures
            r@ == Seq::<(Seq<char>, Seq<char>)>::empty(),
    {
        let r = FieldMap { fields: Vec::new() };
        proof {
            assert(r@ =~= Seq::<(Seq<char>, Seq<char>)>::empty());
        }
        r
    }

    /// The number of distinct fields.
    pub fn len(&self) -> (r: usize)
        ensures
            r == self@.len(),
    {
        self.fields.len()
    }

    /// Looks a field up by name, case-insensitively: the query is lowercased
    /// and compared against the stored (lowercased) keys.
    pub fn get(&self, name: &str) -> (r: Option<&String>)
        ensures
            match r {
                Some(v) => spec_get(self@, spec_lower(name@)) == Some(v@),
                None => spec_get(self@, spec_lower(name@)) is None,
            },
    {
        let key = lower_string(name);
        proof {
            lemma_find_key_bounds(self@, key@);
        }
        let mut j: usize = 0;
        while j < self.fields.len()
            invariant
                j <= self@.len(),
                key@ == spec_lower(name@),
                find_key(self@, key@) is Some ==> find_key(self@, key@)->Some_0 >= j,
                (forall|k: int| 0 <= k < j ==> self@[k].0 != key@),
            decreases self@.len() - j,
        {
            if self.fields[j].0 == key {
                proof {
                    lemma_find_key_first(self@, key@, j as int);
                }
                return Some(&self.fields[j].1);
            }
            proof {
                lemma_find_key_skip(self@, key@, j as int);
            }
            j = j + 1;
        }
        proof {
            if let Some(k) = find_key(self@, key@) {
                lemma_find_key_bounds(self@, key@);
            }
        }
        None
    }

    /// Inserts under an already-lowercased key; a key already present keeps
    /// its first value.
    fn insert_first(&mut self, key: String, value: String)
        ensures
            final(self)@ == rec_insert(old(self)@, key@, value@),
    {
        proof {
            lemma_find_key_bounds(self@, key@);
        }
        let mut j: usize = 0;
        while j < self.fields.len()
            invariant
                j <= self@.len(),
                self@ == old(self)@,
                find_key(self@, key@) is Some ==> find_key(self@, key@)->Some_0 >= j,
                (forall|k: int| 0 <= k < j ==> self@[k].0 != key@),
            decreases self@.len() - j,
        {
            if self.fields[j].0 == key {
                proof {
                    lemma_find_key_first(self@, key@, j as int);
                }
                return ;
            }
            proof {
                lemma_find_key_skip(self@, key@, j as int);
            }
            j = j + 1;
        }
        proof {
            if let Some(k) = find_key(self@, key@) {
                lemma_find_key_bounds(self@, key@);
            }
        }
        let ghost prev = self@;
        self.fields.push((key, value));
        proof {
            assert(self@ =~= prev.push((key@, value@)));
        }
    }
}

/// A found key's index is within the record and names the first occurrence.
pub proof fn lemma_find_key_bounds(r: RecModel, k: Seq<char>)
    ensures
        find_key(r, k) matches Some(j) ==> 0 <= j < r.len() && r[j].0 == k,
        find_key(r, k) is None ==> forall|i: int| 0 <= i < r.len() ==> r[i].0 != k,
    decreases r.len(),
{
    if r.len() > 0 && r[0].0 != k {
        lemma_find_key_bounds(r.drop_first(), k);
        if find_key(r, k) is None {
            assert forall|i: int| 0 <= i < r.len() implies r[i].0 != k by {
                if i > 0 {
                    assert(r.drop_first()[i - 1] == r[i]);
                }
            }
        }
    }
}

/// If the first `j` keys differ from `k` and entry `j` has key `k`, the
/// first occurrence is at `j`.
proof fn lemma_find_key_first(r: RecModel, k: Seq<char>, j: int)
    requires
        0 <= j < r.len(),
        r[j].0 == k,
        forall|i: int| 0 <= i < j ==> r[i].0 != k,
    ensures
        find_key(r, k) == Some(j),
    decreases j,
{
    if j > 0 {
        lemma_find_key_first(r.drop_first(), k, j - 1);
    }
}

/// If the first `j + 1` keys differ from `k`, any occurrence is later still.
proof fn lemma_find_key_skip(r: RecModel, k: Seq<char>, j: int)
    requires
        0 <= j < r.len(),
        forall|i: int| 0 <= i <= j ==> r[i].0 != k,
    ensures
        find_key(r, k) is Some ==> find_key(r, k)->Some_0 > j,
    decreases j,
{
    if j > 0 {
        lemma_find_key_skip(r.drop_first(), k, j - 1);
    } else {
        lemma_find_key_bounds(r.drop_first(), k);
    }
}

/// One logical record: a field-name -> value mapping produced by the record
/// assembler.
#[derive(Debug)]
pub struct AdifRecord {
    pub adir_field_values: FieldMap,
}

impl View for AdifRecord {
    type V = RecModel;

    open spec fn view(&self) -> RecModel {
        self.adir_field_values@
    }
}

/// The view of a record vector.
pub open spec fn records_view(v: Seq<AdifRecord>) -> Seq<RecModel> {
    v.map_values(|r: AdifRecord| r@)
}

/// The record assembler: fields accumulate (first occurrence of a name
/// wins), an end-of-record marker emits the accumulated record, an
/// end-of-header marker separates without emitting, and a trailing
/// accumulator at end of input is dropped.
pub open spec fn spec_assemble(toks: Seq<TokenModel>, acc: RecModel) -> Seq<RecModel>
    decreases toks.len(),
{
    if toks.len() == 0 {
        Seq::<RecModel>::empty()
    } else {
        match toks[0] {
            TokenModel::Field { name, length, type_hint, value } => spec_assemble(
                toks.drop_first(),
                rec_insert(acc, spec_lower(name), value),
            ),
            TokenModel::EndOfHeader => spec_assemble(toks.drop_first(), acc),
            TokenModel::EndOfRecord => seq![acc] + spec_assemble(
                toks.drop_first(),
                Seq::<(Seq<char>, Seq<char>)>::empty(),
            ),
        }
    }
}

/// Folds a token stream into records, exactly as [`spec_assemble`] says.
pub fn assemble_records(toks: &Vec<AdiToken>) -> (r: Vec<AdifRecord>)
    ensures
        records_view(r@) == spec_assemble(tokens_view(toks@), Seq::<(Seq<char>, Seq<char>)>::empty()),
{
    let mut recs: Vec<AdifRecord> = Vec::new();
    let mut acc = FieldMap::new();
    let mut j: usize = 0;
    proof {
        assert(records_view(recs@) =~= Seq::<RecModel>::empty());
        assert(tokens_view(toks@).skip(0) =~= tokens_view(toks@));
        assert(Seq::<RecModel>::empty() + spec_assemble(
            tokens_view(toks@),
            Seq::<(Seq<char>, Seq<char>)>::empty(),
        ) =~= spec_assemble(tokens_view(toks@), Seq::<(Seq<char>, Seq<char>)>::empty()));
    }
    while j < toks.len()
        invariant
            j <= toks@.len(),
            spec_assemble(tokens_view(toks@), Seq::<(Seq<char>, Seq<char>)>::empty())
                == records_view(recs@) + spec_assemble(
                tokens_view(toks@).skip(j as int),
                acc@,
            ),
        decreases toks@.len() - j,
    {
        let ghost rest = tokens_view(toks@).skip(j as int);
        proof {
            assert(rest[0] == toks@[j as int]@);
            assert(rest.drop_first() =~= tokens_view(toks@).skip(j + 1 as int));
        }
        match &toks[j] {
            AdiToken::Field { name, length, type_hint, value } => {
                let key = lower_string(name.as_str());
                let val = value.clone();
                acc.insert_first(key, val);
            },
            AdiToken::EndOfHeader => {},
            AdiToken::EndOfRecord => {
                let ghost done = records_view(recs@);
                let ghost emitted = acc@;
                recs.push(AdifRecord { adir_field_values: acc });
                acc = FieldMap::new();
                proof {
                    assert(records_view(recs@) =~= done.push(
                        AdifRecord { adir_field_values: recs@.last().adir_field_values }@,
                    ));
                    assert(records_view(recs@) =~= done + seq![emitted]);
                    assert(done + (seq![emitted] + spec_assemble(
                        tokens_view(toks@).skip(j + 1 as int),
                        Seq::<(Seq<char>, Seq<char>)>::empty(),
                    )) =~= records_view(recs@) + spec_assemble(
                        tokens_view(toks@).skip(j + 1 as int),
                        Seq::<(Seq<char>, Seq<char>)>::empty(),
                    ));
                }
            },
        }
        j = j + 1;
    }
    proof {
        assert(tokens_view(toks@).skip(toks@.len() as int) =~= Seq::<TokenModel>::empty());
        assert(records_view(recs@) + Seq::<RecModel>::empty() =~= records_view(recs@));
    }
    recs
}

/// Whether the five characters at `i` spell the end-of-header marker,
/// case-insensitively.
pub open spec fn is_eoh_marker_at(s: Seq<char>, i: int) -> bool {
    0 <= i && i + 5 <= s.len() && spec_lower(s.subrange(i, i + 5)) == seq![
        '<',
        'e',
        'o',
        'h',
        '>',
    ]
}

/// Position of the first end-of-header marker at or after `i`, if any.
pub open spec fn find_marker_from(s: Seq<char>, i: int) -> Option<int>
    decreases s.len() - i,
{
    if i < 0 || i + 5 > s.len() {
        None
    } else if is_eoh_marker_at(s, i) {
        Some(i)
    } else {
        find_marker_from(s, i + 1)
    }
}

/// Where lexing starts: after the first end-of-header marker, or at the
/// start of the input when there is none (the stream then has no header).
pub open spec fn spec_body_start(s: Seq<char>) -> int {
    match find_marker_from(s, 0) {
        Some(j) => j + 5,
        None => 0,
    }
}

/// The records of a whole input: header skipped, body lexed, tokens
/// assembled; `None` exactly when the body is malformed.
pub open spec fn spec_parse_records(s: Seq<char>) -> Option<Seq<RecModel>> {
    match spec_lex_from(s, spec_body_start(s)) {
        None => None,
        Some(ts) => Some(spec_assemble(ts, Seq::<(Seq<char>, Seq<char>)>::empty())),
    }
}

proof fn lemma_find_marker_bounds(s: Seq<char>, i: int)
    requires
        0 <= i,
    ensures
        find_marker_from(s, i) matches Some(j) ==> i <= j && j + 5 <= s.len(),
    decreases s.len() - i,
{
    if i + 5 <= s.len() && !is_eoh_marker_at(s, i) {
        lemma_find_marker_bounds(s, i + 1);
    }
}

/// Scans for the first end-of-header marker.
fn find_marker(v: &Vec<char>) -> (r: Option<usize>)
    ensures
        match r {
            None => find_marker_from(v@, 0) is None,
            Some(j) => find_marker_from(v@, 0) == Some(j as int) && j + 5 <= v@.len(),
        },
{
    let n = v.len();
    if n < 5 {
        return None;
    }
    let mut i: usize = 0;
    while i <= n - 5
        invariant
            n == v@.len(),
            5 <= n,
            i <= n - 4,
            find_marker_from(v@, 0) == find_marker_from(v@, i as int),
        decreases n - i,
    {
        let hit = v[i] == '<' && to_lower(v[i + 1]) == 'e' && to_lower(v[i + 2]) == 'o'
            && to_lower(v[i + 3]) == 'h' && v[i + 4] == '>';
        proof {
            let w = v@.subrange(i as int, i + 5 as int);
            assert(spec_lower(w).len() == 5);
            assert(spec_lower(w)[0] == spec_to_lower(v@[i as int]));
            assert(spec_lower(w)[1] == spec_to_lower(v@[i + 1]));
            assert(spec_lower(w)[2] == spec_to_lower(v@[i + 2]));
            assert(spec_lower(w)[3] == spec_to_lower(v@[i + 3]));
            assert(spec_lower(w)[4] == spec_to_lower(v@[i + 4]));
            if hit {
                assert(spec_lower(w) =~= seq!['<', 'e', 'o', 'h', '>']);
            }
        }
        if hit {
            return Some(i);
        }
        i = i + 1;
    }
    None
}

/// Decimal digit character for a value 0..9.
pub open spec fn spec_digit_char(d: int) -> char {
    if d == 0 {
        '0'
    } else if d == 1 {
        '1'
    } else if d == 2 {
        '2'
    } else if d == 3 {
        '3'
    } else if d == 4 {
        '4'
    } else if d == 5 {
        '5'
    } else if d == 6 {
        '6'
    } else if d == 7 {
        '7'
    } else if d == 8 {
        '8'
    } else {
        '9'
    }
}

/// Decimal rendering of a nonnegative number, most significant digit first.
pub open spec fn spec_decimal(n: int) -> Seq<char>
    decreases n,
{
    if n <= 9 {
        seq![spec_digit_char(n)]
    } else {
        spec_decimal(n / 10).push(spec_digit_char(n % 10))
    }
}

/// Renders a number in decimal, for diagnostics.
pub fn usize_to_string(n: usize) -> (r: String)
    ensures
        r@ == spec_decimal(n as int),
    decreases n,
{
    let d: char = match n % 10 {
        0 => '0',
        1 => '1',
        2 => '2',
        3 => '3',
        4 => '4',
        5 => '5',
        6 => '6',
        7 => '7',
        8 => '8',
        _ => '9',
    };
    if n <= 9 {
        let mut s = String::new();
        push_char(&mut s, d);
        proof {
            assert(s@ =~= seq![spec_digit_char(n as int)]);
        }
        s
    } else {
        let mut s = usize_to_string(n / 10);
        push_char(&mut s, d);
        s
    }
}

/// The parser's output: the caller-supplied label (used only for
/// diagnostics) and the parsed records.
#[derive(Debug)]
pub struct AdifFile {
    pub adif_label: String,
    pub adif_records: Vec<AdifRecord>,
}

impl AdifFile {
    /// The parsed records.
    pub fn records(&self) -> (r: &Vec<AdifRecord>)
        ensures
            r == &self.adif_records,
    {
        &self.adif_records
    }
}

/// Parses one ADI input: skips the free-text header (everything up to the
/// first end-of-header marker, when one occurs), lexes the body into tags,
/// and assembles the logical records.  Returns exactly the records
/// [`spec_parse_records`] names, or a bad-input error naming the label and
/// the offending character position exactly when the body is malformed.
pub fn adif_parse(label: &str, source: &str) -> (r: Result<AdifFile, AdifParseError>)
    ensures
        r is Ok <==> spec_parse_records(source@) is Some,
        r matches Ok(f) ==> f.adif_label@ == label@ && Some(records_view(f.adif_records@))
            == spec_parse_records(source@),
        r matches Err(e) ==> e is ADIF_EBADINPUT,
{
    let chars = to_char_vec(source);
    let start: usize = match find_marker(&chars) {
        Some(j) => j + 5,
        None => 0,
    };
    match lex_tokens(&chars, start) {
        Err(p) => {
            let msg = String::from_str(label).concat(": malformed tag at character offset ")
                .concat(usize_to_string(p).as_str());
            Err(AdifParseError::ADIF_EBADINPUT(msg))
        },
        Ok(toks) => {
            let records = assemble_records(&toks);
            Ok(AdifFile { adif_label: String::from_str(label), adif_records: records })
        },
    }
}

/// The closed set of record-selection criteria for reports: every record,
/// or only the records that lack a given field.
pub enum AdifDumpWhichRecords {
    All,
    MissingField(String),
}

/// Whether a record is selected by a criterion.
pub open spec fn spec_keep(rec: RecModel, which: &AdifDumpWhichRecords) -> bool {
    match which {
        AdifDumpWhichRecords::All => true,
        AdifDumpWhichRecords::MissingField(name) => spec_get(rec, spec_lower(name@)) is None,
    }
}

/// The subsequence of records a criterion selects, in order.
pub open spec fn spec_dump(records: Seq<RecModel>, which: &AdifDumpWhichRecords) -> Seq<
    RecModel,
>
    decreases records.len(),
{
    if records.len() == 0 {
        Seq::<RecModel>::empty()
    } else {
        spec_dump(records.drop_last(), which) + if spec_keep(records.last(), which) {
            seq![records.last()]
        } else {
            Seq::<RecModel>::empty()
        }
    }
}

/// The view of a vector of record references.
pub open spec fn ref_records_view(v: Seq<&AdifRecord>) -> Seq<RecModel> {
    v.map_values(|r: &AdifRecord| r@)
}

/// Selects records for a report without touching the parsed file: all of
/// them, or only those missing a given field, in their original order.
pub fn adif_dump<'a>(file: &'a AdifFile, which: &AdifDumpWhichRecords) -> (r: Vec<
    &'a AdifRecord,
>)
    ensures
        ref_records_view(r@) == spec_dump(records_view(file.adif_records@), which),
{
    let mut out: Vec<&'a AdifRecord> = Vec::new();
    let mut j: usize = 0;
    proof {
        assert(ref_records_view(out@) =~= spec_dump(
            records_view(file.adif_records@).subrange(0, 0),
            which,
        ));
    }
    while j < file.adif_records.len()
        invariant
            j <= file.adif_records@.len(),
            ref_records_view(out@) == spec_dump(
                records_view(file.adif_records@).subrange(0, j as int),
                which,
            ),
        decreases file.adif_records@.len() - j,
    {
        let rec = &file.adif_records[j];
        let keep = match which {
            AdifDumpWhichRecords::All => true,
            AdifDumpWhichRecords::MissingField(name) => rec.adir_field_values.get(
                name.as_str(),
            ).is_none(),
        };
        let ghost prefix = records_view(file.adif_records@).subrange(0, j as int);
        let ghost prefix1 = records_view(file.adif_records@).subrange(0, j + 1 as int);
        proof {
            assert(prefix1.drop_last() =~= prefix);
            assert(prefix1.last() == rec@);
        }
        if keep {
            let ghost old_out = out@;
            out.push(rec);
            proof {
                assert(ref_records_view(out@) =~= ref_records_view(old_out) + seq![rec@]);
            }
        } else {
            proof {
                assert(ref_records_view(out@) + Seq::<RecModel>::empty() =~= ref_records_view(
                    out@,
                ));
            }
        }
        j = j + 1;
    }
    proof {
        assert(records_view(file.adif_records@).subrange(
            0,
            file.adif_records@.len() as int,
        ) =~= records_view(file.adif_records@));
    }
    out
}

/// The records whose flag in `bs` is false, in order: the shape of a
/// selection made by an arbitrary caller-supplied predicate.
pub open spec fn spec_failing(records: Seq<AdifRecord>, bs: Seq<bool>) -> Seq<RecModel>
    decreases records.len(),
{
    if records.len() == 0 {
        Seq::<RecModel>::empty()
    } else {
        spec_failing(records.drop_last(), bs.drop_last()) + if !bs.last() {
            seq![records.last()@]
        } else {
            Seq::<RecModel>::empty()
        }
    }
}

/// Selects the records for which a caller-supplied domain-mapping predicate
/// fails, in their original order.  The result is exactly the subsequence of
/// records on which the predicate's own contract allowed it to return
/// `false`.
pub fn adif_select_failing<'a, F: Fn(&AdifRecord) -> bool>(file: &'a AdifFile, pred: F) -> (r:
    Vec<&'a AdifRecord>)
    requires
        forall|rec: &AdifRecord| #[trigger] pred.requires((rec,)),
    ensures
        exists|bs: Seq<bool>|
            bs.len() == file.adif_records@.len() && (forall|i: int|
                0 <= i < bs.len() ==> pred.ensures(
                    (&file.adif_records@[i],),
                    #[trigger] bs[i],
                )) && ref_records_view(r@) == spec_failing(file.adif_records@, bs),
{
    let mut out: Vec<&'a AdifRecord> = Vec::new();
    let ghost mut bs: Seq<bool> = Seq::empty();
    let mut j: usize = 0;
    proof {
        assert(ref_records_view(out@) =~= spec_failing(
            file.adif_records@.subrange(0, 0),
            bs,
        ));
    }
    while j < file.adif_records.len()
        invariant
            j <= file.adif_records@.len(),
            forall|rec: &AdifRecord| #[trigger] pred.requires((rec,)),
            bs.len() == j,
            forall|i: int|
                0 <= i < j ==> pred.ensures((&file.adif_records@[i],), #[trigger] bs[i]),
            ref_records_view(out@) == spec_failing(file.adif_records@.subrange(0, j as int), bs),
        decreases file.adif_records@.len() - j,
    {
        let rec = &file.adif_records[j];
        let ok = pred(rec);
        let ghost prefix = file.adif_records@.subrange(0, j as int);
        let ghost prefix1 = file.adif_records@.subrange(0, j + 1 as int);
        proof {
            assert(prefix1.drop_last() =~= prefix);
            assert(bs.push(ok).drop_last() =~= bs);
        }
        if !ok {
            let ghost old_out = out@;
            out.push(rec);
            proof {
                assert(ref_records_view(out@) =~= ref_records_view(old_out) + seq![rec@]);
            }
        } else {
            proof {
                assert(ref_records_view(out@) + Seq::<RecModel>::empty() =~= ref_records_view(
                    out@,
                ));
            }
        }
        proof {
            bs = bs.push(ok);
        }
        j = j + 1;
    }
    proof {
        assert(file.adif_records@.subrange(0, file.adif_records@.len() as int)
            =~= file.adif_records@);
    }
    out
}

/// The grid error a locator string earns: wrong length first, then wrong
/// character classes.
pub open spec fn spec_grid_err(g: Seq<char>) -> GridError {
    if !valid_grid_len(g.len() as int) {
        GridError::InvalidLength(g.len() as usize)
    } else {
        GridError::InvalidFormat
    }
}

/// The callsign record a logical record yields, given the six field names to
/// read: the call itself, the operator name, state, grid locator, city, and
/// confirmation flag.  No call field means no record; a malformed locator is
/// a `GridError`; otherwise every present field is carried over, the call
/// uppercased and the confirmation flag mapped to registered on `Y`.
pub open spec fn spec_call_outcome(
    rec: RecModel,
    call_key: Seq<char>,
    name_key: Seq<char>,
    state_key: Seq<char>,
    grid_key: Seq<char>,
    city_key: Seq<char>,
    qsl_key: Seq<char>,
) -> Result<Option<CallView>, GridError> {
    match spec_get(rec, call_key) {
        None => Ok(None),
        Some(callv) => {
            let bad_grid = match spec_get(rec, grid_key) {
                Some(g) => !valid_grid(g),
                None => false,
            };
            if bad_grid {
                Err(spec_grid_err(spec_get(rec, grid_key)->Some_0))
            } else {
                Ok(
                    Some(
                        CallView {
                            call: spec_upper(callv),
                            op: spec_get(rec, name_key),
                            address: None,
                            qth: spec_get(rec, city_key),
                            state: spec_get(rec, state_key),
                            grid: spec_get(rec, grid_key),
                            lotw: if spec_get(rec, qsl_key) == Some("Y"@) {
                                LoTWStatus::Registered
                            } else {
                                LoTWStatus::Unknown
                            },
                        },
                    ),
                )
            }
        },
    }
}

/// An executable callsign-extraction result agrees with its specification.
pub open spec fn call_result_matches(
    r: Result<Option<Call>, GridError>,
    m: Result<Option<CallView>, GridError>,
) -> bool {
    match r {
        Ok(None) => m == Ok::<Option<CallView>, GridError>(None),
        Ok(Some(c)) => m matches Ok(Some(cv)) && c@ == cv,
        Err(e) => m matches Err(e2) && e == e2,
    }
}

/// Extracting callsign records from a logical record: the contacted station
/// (from the `call` family of fields) and the logging station (from the
/// `station_callsign` family).  A record with a malformed locator yields the
/// locator's error rather than a partial record.
pub trait CallsignInfo {
    /// The logging station's record, read from `station_callsign`,
    /// `my_name`, `my_state`, `my_gridsquare`, `my_city` and
    /// `lotw_qsl_sent`.
    fn my_call_from_adif_record(record: &AdifRecord) -> (r: Result<Option<Call>, GridError>)
        ensures
            call_result_matches(
                r,
                spec_call_outcome(
                    record@,
                    spec_lower("station_callsign"@),
                    spec_lower("my_name"@),
                    spec_lower("my_state"@),
                    spec_lower("my_gridsquare"@),
                    spec_lower("my_city"@),
                    spec_lower("lotw_qsl_sent"@),
                ),
            ),
    ;

    /// The contacted station's record, read from `call`, `name`, `state`,
    /// `gridsquare`, `qth` and `lotw_qsl_rcvd`.
    fn call_from_adif_record(record: &AdifRecord) -> (r: Result<Option<Call>, GridError>)
        ensures
            call_result_matches(
                r,
                spec_call_outcome(
                    record@,
                    spec_lower("call"@),
                    spec_lower("name"@),
                    spec_lower("state"@),
                    spec_lower("gridsquare"@),
                    spec_lower("qth"@),
                    spec_lower("lotw_qsl_rcvd"@),
                ),
            ),
    ;
}

impl CallsignInfo for Call {
    fn my_call_from_adif_record(record: &AdifRecord) -> (r: Result<Option<Call>, GridError>) {
        let fv = &record.adir_field_values;
        let callv = match fv.get("station_callsign") {
            None => {
                return Ok(None);
            },
            Some(c) => c.clone(),
        };
        let grid = match fv.get("my_gridsquare") {
            Some(g) => match Grid::new(g.clone()) {
                Ok(gr) => Some(gr),
                Err(e) => {
                    return Err(e);
                },
            },
            None => None,
        };
        let name = match fv.get("my_name") {
            Some(s) => Some(s.clone()),
            None => None,
        };
        let state = match fv.get("my_state") {
            Some(s) => Some(s.clone()),
            None => None,
        };
        let qth = match fv.get("my_city") {
            Some(s) => Some(s.clone()),
            None => None,
        };
        let lotw = match fv.get("lotw_qsl_sent") {
            Some(q) => if str_eq(q.as_str(), "Y") {
                LoTWStatus::Registered
            } else {
                LoTWStatus::Unknown
            },
            None => LoTWStatus::Unknown,
        };
        Ok(Some(Call::full(callv, name, None, qth, state, grid, lotw)))
    }

    fn call_from_adif_record(record: &AdifRecord) -> (r: Result<Option<Call>, GridError>) {
        let fv = &record.adir_field_values;
        let callv = match fv.get("call") {
            None => {
                return Ok(None);
            },
            Some(c) => c.clone(),
        };
        let grid = match fv.get("gridsquare") {
            Some(g) => match Grid::new(g.clone()) {
                Ok(gr) => Some(gr),
                Err(e) => {
                    return Err(e);
                },
            },
            None => None,
        };
        let name = match fv.get("name") {
            Some(s) => Some(s.clone()),
            None => None,
        };
        let state = match fv.get("state") {
            Some(s) => Some(s.clone()),
            None => None,
        };
        let qth = match fv.get("qth") {
            Some(s) => Some(s.clone()),
            None => None,
        };
        let lotw = match fv.get("lotw_qsl_rcvd") {
            Some(q) => if str_eq(q.as_str(), "Y") {
                LoTWStatus::Registered
            } else {
                LoTWStatus::Unknown
            },
            None => LoTWStatus::Unknown,
        };
        Ok(Some(Call::full(callv, name, None, qth, state, grid, lotw)))
    }
}

/// The end-of-header marker text.
pub open spec fn eoh_marker() -> Seq<char> {
    seq!['<', 'e', 'o', 'h', '>']
}

/// If the first marker occurrence is at `j`, the search finds exactly `j`.
proof fn lemma_find_marker_exact(s: Seq<char>, from: int, j: int)
    requires
        0 <= from <= j,
        j + 5 <= s.len(),
        is_eoh_marker_at(s, j),
        forall|p: int| from <= p < j ==> !is_eoh_marker_at(s, p),
    ensures
        find_marker_from(s, from) == Some(j),
    decreases j - from,
{
    if from < j {
        lemma_find_marker_exact(s, from + 1, j);
    }
}

/// Searching from `i` finds whatever the search from `i` on the suffix
/// finds, shifted.
proof fn lemma_find_char_shift(p: Seq<char>, s: Seq<char>, i: int, c: char)
    requires
        0 <= i,
    ensures
        find_char(p + s, p.len() + i, c) == (match find_char(s, i, c) {
            None => None::<int>,
            Some(j) => Some(p.len() + j),
        }),
    decreases s.len() - i,
{
    if i < s.len() {
        assert((p + s)[p.len() + i] == s[i]);
        if s[i] != c {
            lemma_find_char_shift(p, s, i + 1, c);
        }
    }
}

/// One lexer step on a suffix is the same step, shifted, on the whole.
proof fn lemma_next_token_shift(p: Seq<char>, s: Seq<char>, i: int)
    requires
        0 <= i,
    ensures
        spec_next_token(p + s, p.len() + i) == (match spec_next_token(s, i) {
            LexStep::Done => LexStep::Done,
            LexStep::Fail => LexStep::Fail,
            LexStep::Tok { tok, next } => LexStep::Tok { tok, next: p.len() + next },
        }),
{
    let pl = p.len() as int;
    lemma_find_char_shift(p, s, i, '<');
    if let Some(a) = find_char(s, i, '<') {
        crate::adi::lemma_find_char(s, i, '<');
        lemma_find_char_shift(p, s, a + 1, '>');
        if let Some(b) = find_char(s, a + 1, '>') {
            crate::adi::lemma_find_char(s, a + 1, '>');
            assert((p + s).subrange(pl + a + 1, pl + b) =~= s.subrange(a + 1, b));
            let h = s.subrange(a + 1, b);
            if let Some(c1) = find_char(h, 0, ':') {
                crate::adi::lemma_find_char(h, 0, ':');
                let rest = h.subrange(c1 + 1, h.len() as int);
                let lenpart = match find_char(rest, 0, ':') {
                    None => rest,
                    Some(c2) => rest.subrange(0, c2),
                };
                if h.subrange(0, c1).len() != 0 && lenpart.len() != 0 && all_digits(lenpart) {
                    let l = digits_value(lenpart);
                    crate::adi::lemma_digits_value_nonneg(lenpart);
                    if b + 1 + l <= s.len() {
                        assert((p + s).subrange(pl + b + 1, pl + b + 1 + l) =~= s.subrange(
                            b + 1,
                            b + 1 + l,
                        ));
                    }
                }
            }
        }
    }
}

/// Lexing a suffix yields the same tokens as lexing the whole from the
/// suffix's start.
proof fn lemma_lex_shift(p: Seq<char>, s: Seq<char>, i: int)
    requires
        0 <= i,
    ensures
        spec_lex_from(p + s, p.len() + i) == spec_lex_from(s, i),
    decreases s.len() - i + 1,
{
    lemma_next_token_shift(p, s, i);
    crate::adi::lemma_next_token_advances(s, i);
    if let LexStep::Tok { tok, next } = spec_next_token(s, i) {
        if i < next <= s.len() {
            lemma_lex_shift(p, s, next);
        }
    }
}

/// No end-of-header marker occurrence starts inside the header part.
proof fn lemma_no_marker_in_header(header: Seq<char>, body: Seq<char>, q: int)
    requires
        forall|i: int| !is_eoh_marker_at(header, i),
        0 <= q < header.len(),
    ensures
        !is_eoh_marker_at(header + eoh_marker() + body, q),
{
    let s = header + eoh_marker() + body;
    let hl = header.len() as int;
    if is_eoh_marker_at(s, q) {
        let w = s.subrange(q, q + 5);
        if q + 5 <= hl {
            assert(header.subrange(q, q + 5) =~= w);
            assert(!is_eoh_marker_at(header, q));
        } else {
            // An occurrence overlapping the boundary would put the marker's
            // opening '<' where a marker needs 'e', 'o', 'h' or '>'.
            let k = hl - q;
            assert(0 < k < 5);
            assert(w[k] == s[hl]);
            assert(s[hl] == '<');
            assert(spec_lower(w)[k] == spec_to_lower(w[k]));
            assert(spec_lower(w) == eoh_marker());
        }
    }
}

/// A rendered tag at the head of a stream lexes to exactly its own token —
/// name, declared length, and a value of exactly that length, whatever
/// characters the value holds — followed by the tokens of the remainder.
pub proof fn lemma_lex_recovers_tag_stream(name: Seq<char>, value: Seq<char>, rest: Seq<char>)
    requires
        crate::adi::plain_tag_name(name),
    ensures
        spec_lex_from(crate::adi::render_tag(name, value) + rest, 0) == (match spec_lex_from(
            rest,
            0,
        ) {
            None => None::<Seq<TokenModel>>,
            Some(ts) => Some(
                seq![
                    TokenModel::Field {
                        name: name,
                        length: value.len(),
                        type_hint: None,
                        value: value,
                    },
                ] + ts,
            ),
        }),
{
    let tag = crate::adi::render_tag(name, value);
    let s = tag + rest;
    crate::adi::lemma_lex_recovers_tag(name, value, rest);
    assert(tag.len() >= 5);
    lemma_lex_shift(tag, rest, 0);
}

/// Free text before the end-of-header marker is skipped entirely: with a
/// header that nowhere contains the marker, lexing starts exactly after the
/// marker.
pub proof fn lemma_header_skipped(header: Seq<char>, body: Seq<char>)
    requires
        forall|i: int| !is_eoh_marker_at(header, i),
    ensures
        spec_body_start(header + eoh_marker() + body) == header.len() + 5,
{
    let s = header + eoh_marker() + body;
    let hl = header.len() as int;
    assert(s.subrange(hl, hl + 5) =~= eoh_marker());
    assert(spec_lower(s.subrange(hl, hl + 5)) =~= eoh_marker());
    assert(is_eoh_marker_at(s, hl));
    assert forall|q: int| 0 <= q < hl implies !is_eoh_marker_at(s, q) by {
        lemma_no_marker_in_header(header, body, q);
    }
    lemma_find_marker_exact(s, 0, hl);
}

/// Header text never appears in any emitted record: with a header that
/// nowhere contains the end-of-header marker, the whole input parses to
/// exactly the records of the body alone.
pub proof fn lemma_header_not_in_records(header: Seq<char>, body: Seq<char>)
    requires
        forall|i: int| !is_eoh_marker_at(header, i),
    ensures
        spec_parse_records(header + eoh_marker() + body) == (match spec_lex_from(body, 0) {
            None => None::<Seq<RecModel>>,
            Some(ts) => Some(spec_assemble(ts, Seq::<(Seq<char>, Seq<char>)>::empty())),
        }),
{
    lemma_header_skipped(header, body);
    let p = header + eoh_marker();
    assert(header + eoh_marker() + body =~= p + body);
    lemma_lex_shift(p, body, 0);
}

/// Tag names differing only in case land in the same field: the assembler
/// keys every insertion by the lowercased name, and lookup lowercases its
/// query, so names with equal lowercasings share one entry.
pub proof fn lemma_case_insensitive_names(
    rec: RecModel,
    a: Seq<char>,
    b: Seq<char>,
    v: Seq<char>,
)
    requires
        spec_lower(a) == spec_lower(b),
    ensures
        rec_insert(rec, spec_lower(a), v) == rec_insert(rec, spec_lower(b), v),
        spec_get(rec, spec_lower(a)) == spec_get(rec, spec_lower(b)),
{
}

/// Two field tags whose names differ only in case land in one field: the
/// record they assemble to has a single entry, under the lowercased name,
/// holding the first tag's value.
pub proof fn lemma_same_field_across_case(
    a: Seq<char>,
    b: Seq<char>,
    v1: Seq<char>,
    v2: Seq<char>,
    h1: Option<Seq<char>>,
    h2: Option<Seq<char>>,
)
    requires
        spec_lower(a) == spec_lower(b),
    ensures
        spec_assemble(
            seq![
                TokenModel::Field { name: a, length: v1.len(), type_hint: h1, value: v1 },
                TokenModel::Field { name: b, length: v2.len(), type_hint: h2, value: v2 },
                TokenModel::EndOfRecord,
            ],
            Seq::<(Seq<char>, Seq<char>)>::empty(),
        ) == seq![seq![(spec_lower(a), v1)]],
        spec_get(seq![(spec_lower(a), v1)], spec_lower(b)) == Some(v1),
{
    let toks = seq![
        TokenModel::Field { name: a, length: v1.len(), type_hint: h1, value: v1 },
        TokenModel::Field { name: b, length: v2.len(), type_hint: h2, value: v2 },
        TokenModel::EndOfRecord,
    ];
    let empty = Seq::<(Seq<char>, Seq<char>)>::empty();
    let one = rec_insert(empty, spec_lower(a), v1);
    assert(find_key(empty, spec_lower(a)) is None);
    assert(one =~= seq![(spec_lower(a), v1)]);
    assert(find_key(one, spec_lower(b)) == Some(0int));
    assert(rec_insert(one, spec_lower(b), v2) == one);
    let t1 = seq![
        TokenModel::Field { name: b, length: v2.len(), type_hint: h2, value: v2 },
        TokenModel::EndOfRecord,
    ];
    let t2 = seq![TokenModel::EndOfRecord];
    assert(toks.drop_first() =~= t1);
    assert(t1.drop_first() =~= t2);
    assert(t2.drop_first() =~= Seq::<TokenModel>::empty());
    assert(spec_assemble(t2, one) == seq![one] + spec_assemble(
        Seq::<TokenModel>::empty(),
        empty,
    ));
    assert(spec_assemble(t2, one) =~= seq![one]);
    assert(spec_assemble(t1, one) == spec_assemble(t2, rec_insert(one, spec_lower(b), v2)));
    assert(spec_assemble(toks, empty) == spec_assemble(t1, one));
    assert(spec_assemble(toks, empty) =~= seq![seq![(spec_lower(a), v1)]]);
}

/// How many end-of-record markers a token stream holds.
pub open spec fn count_eor(toks: Seq<TokenModel>) -> int
    decreases toks.len(),
{
    if toks.len() == 0 {
        0
    } else {
        (if toks[0] is EndOfRecord {
            1int
        } else {
            0int
        }) + count_eor(toks.drop_first())
    }
}

/// The assembler emits exactly one record per end-of-record marker,
/// whatever fields stand before, between or after them.
pub proof fn lemma_one_record_per_eor(toks: Seq<TokenModel>, acc: RecModel)
    ensures
        spec_assemble(toks, acc).len() == count_eor(toks),
    decreases toks.len(),
{
    if toks.len() > 0 {
        match toks[0] {
            TokenModel::Field { name, length, type_hint, value } => {
                lemma_one_record_per_eor(
                    toks.drop_first(),
                    rec_insert(acc, spec_lower(name), value),
                );
            },
            TokenModel::EndOfHeader => {
                lemma_one_record_per_eor(toks.drop_first(), acc);
            },
            TokenModel::EndOfRecord => {
                lemma_one_record_per_eor(
                    toks.drop_first(),
                    Seq::<(Seq<char>, Seq<char>)>::empty(),
                );
            },
        }
    }
}

/// A trailing accumulation without an end-of-record marker is not emitted:
/// a token stream with no marker produces no record at all, whatever fields
/// it holds.
pub proof fn lemma_unterminated_record_not_emitted(toks: Seq<TokenModel>, acc: RecModel)
    requires
        forall|i: int| 0 <= i < toks.len() ==> !(#[trigger] toks[i] is EndOfRecord),
    ensures
        spec_assemble(toks, acc) == Seq::<RecModel>::empty(),
    decreases toks.len(),
{
    if toks.len() > 0 {
        assert(!(toks[0] is EndOfRecord));
        assert forall|i: int| 0 <= i < toks.drop_first().len() implies !(
        #[trigger] toks.drop_first()[i] is EndOfRecord) by {
            assert(toks.drop_first()[i] == toks[i + 1]);
        }
        match toks[0] {
            TokenModel::Field { name, length, type_hint, value } => {
                lemma_unterminated_record_not_emitted(
                    toks.drop_first(),
                    rec_insert(acc, spec_lower(name), value),
                );
            },
            TokenModel::EndOfHeader => {
                lemma_unterminated_record_not_emitted(toks.drop_first(), acc);
            },
            TokenModel::EndOfRecord => {
            },
        }
    }
}

} // verus!
