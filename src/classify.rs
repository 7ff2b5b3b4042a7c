//! The statement classifier: a leading-keyword tag for any SQL text, and the
//! decision whether a statement has to run on the row-returning path.
use vstd::prelude::*;
use vstd::string::StringSliceAdditionalSpecFns;

verus! {

/// The kind of a statement, read from its leading keyword.
#[derive(Clone, Copy, Debug, PartialEq, Eq, Structural)]
pub enum QueryType {
    Select,
    Insert,
    Update,
    Delete,
    Create,
    Drop,
    Alter,
    Begin,
    Commit,
    Rollback,
    Other,
}

/// Space, tab, line feed and carriage return separate SQL words.
pub open spec fn is_space(c: u8) -> bool {
    c == 32 || c == 9 || c == 10 || c == 13
}

/// ASCII letters, digits and the underscore continue an identifier.
pub open spec fn is_ident(c: u8) -> bool {
    (48 <= c <= 57) || (65 <= c <= 90) || (97 <= c <= 122) || c == 95
}

/// ASCII upper-casing of one byte; every other byte stays as it is.
pub open spec fn upper(c: u8) -> u8 {
    if 97 <= c <= 122 {
        (c - 32) as u8
    } else {
        c
    }
}

/// A byte string with every ASCII letter upper-cased.
pub open spec fn fold(b: Seq<u8>) -> Seq<u8> {
    b.map_values(|c: u8| upper(c))
}

/// What is left of `b` once its leading whitespace is dropped.
pub open spec fn skip_space(b: Seq<u8>) -> Seq<u8>
    decreases b.len(),
{
    if b.len() > 0 && is_space(b[0]) {
        skip_space(b.drop_first())
    } else {
        b
    }
}

/// The leading run of non-whitespace bytes of `b`.
pub open spec fn first_word(b: Seq<u8>) -> Seq<u8>
    decreases b.len(),
{
    if b.len() == 0 || is_space(b[0]) {
        Seq::empty()
    } else {
        seq![b[0]] + first_word(b.drop_first())
    }
}

pub open spec fn kw_select() -> Seq<u8> {
    seq![83u8, 69u8, 76u8, 69u8, 67u8, 84u8]
}

pub open spec fn kw_insert() -> Seq<u8> {
    seq![73u8, 78u8, 83u8, 69u8, 82u8, 84u8]
}

pub open spec fn kw_update() -> Seq<u8> {
    seq![85u8, 80u8, 68u8, 65u8, 84u8, 69u8]
}

pub open spec fn kw_delete() -> Seq<u8> {
    seq![68u8, 69u8, 76u8, 69u8, 84u8, 69u8]
}

pub open spec fn kw_create() -> Seq<u8> {
    seq![67u8, 82u8, 69u8, 65u8, 84u8, 69u8]
}

pub open spec fn kw_drop() -> Seq<u8> {
    seq![68u8, 82u8, 79u8, 80u8]
}

pub open spec fn kw_alter() -> Seq<u8> {
    seq![65u8, 76u8, 84u8, 69u8, 82u8]
}

pub open spec fn kw_begin() -> Seq<u8> {
    seq![66u8, 69u8, 71u8, 73u8, 78u8]
}

pub open spec fn kw_commit() -> Seq<u8> {
    seq![67u8, 79u8, 77u8, 77u8, 73u8, 84u8]
}

pub open spec fn kw_rollback() -> Seq<u8> {
    seq![82u8, 79u8, 76u8, 76u8, 66u8, 65u8, 67u8, 75u8]
}

pub open spec fn kw_returning() -> Seq<u8> {
    seq![82u8, 69u8, 84u8, 85u8, 82u8, 78u8, 73u8, 78u8, 71u8]
}

/// The tag of an upper-cased word; the first keyword that equals it wins.
pub open spec fn tag_of_word(w: Seq<u8>) -> QueryType {
    if w == kw_select() {
        QueryType::Select
    } else if w == kw_insert() {
        QueryType::Insert
    } else if w == kw_update() {
        QueryType::Update
    } else if w == kw_delete() {
        QueryType::Delete
    } else if w == kw_create() {
        QueryType::Create
    } else if w == kw_drop() {
        QueryType::Drop
    } else if w == kw_alter() {
        QueryType::Alter
    } else if w == kw_begin() {
        QueryType::Begin
    } else if w == kw_commit() {
        QueryType::Commit
    } else if w == kw_rollback() {
        QueryType::Rollback
    } else {
        QueryType::Other
    }
}

/// The tag of a statement: its first whitespace-delimited word, compared
/// without regard to ASCII case.
pub open spec fn query_type_of(b: Seq<u8>) -> QueryType {
    tag_of_word(fold(first_word(skip_space(b))))
}

/// `kw` stands at byte `i` of `b`, compared without regard to ASCII case.
pub open spec fn keyword_at(b: Seq<u8>, i: int, kw: Seq<u8>) -> bool {
    0 <= i && i + kw.len() <= b.len() && fold(b.subrange(i, i + kw.len())) == kw
}

/// The statement opens with the word SELECT, not followed by an identifier byte.
pub open spec fn starts_with_select(b: Seq<u8>) -> bool {
    let t = skip_space(b);
    keyword_at(t, 0, kw_select()) && (t.len() == 6 || !is_ident(t[6]))
}

/// The word RETURNING stands at byte `i`, with no identifier byte on either side.
pub open spec fn returning_at(b: Seq<u8>, i: int) -> bool {
    &&& keyword_at(b, i, kw_returning())
    &&& (i == 0 || !is_ident(b[i - 1]))
    &&& (i + 9 == b.len() || !is_ident(b[i + 9]))
}

/// The statement returns rows: it is a SELECT, or it holds a RETURNING clause.
pub open spec fn returns_rows(b: Seq<u8>) -> bool {
    starts_with_select(b) || exists|i: int| returning_at(b, i)
}

fn is_space_byte(c: u8) -> (r: bool)
    ensures
        r == is_space(c),
{
    c == 32 || c == 9 || c == 10 || c == 13
}

fn is_ident_byte(c: u8) -> (r: bool)
    ensures
        r == is_ident(c),
{
    (48 <= c && c <= 57) || (65 <= c && c <= 90) || (97 <= c && c <= 122) || c == 95
}

fn upper_byte(c: u8) -> (r: u8)
    ensures
        r == upper(c),
{
    if 97 <= c && c <= 122 {
        c - 32
    } else {
        c
    }
}

/// The index of the first byte of `b` that is not whitespace (or its length).
fn space_end(b: &[u8]) -> (r: usize)
    ensures
        r <= b@.len(),
        b@.subrange(r as int, b@.len() as int) == skip_space(b@),
{
    let mut i: usize = 0;
    proof {
        assert(b@.subrange(0, b@.len() as int) =~= b@);
    }
    while i < b.len() && is_space_byte(b[i])
        invariant
            i <= b@.len(),
            skip_space(b@.subrange(i as int, b@.len() as int)) == skip_space(b@),
        decreases b@.len() - i,
    {
        proof {
            let s = b@.subrange(i as int, b@.len() as int);
            assert(s.drop_first() =~= b@.subrange(i + 1, b@.len() as int));
        }
        i = i + 1;
    }
    i
}

/// The end of the word that starts at byte `start` of `b`.
fn word_end(b: &[u8], start: usize) -> (r: usize)
    requires
        start <= b@.len(),
    ensures
        start <= r <= b@.len(),
        b@.subrange(start as int, r as int) == first_word(
            b@.subrange(start as int, b@.len() as int),
        ),
{
    let mut i: usize = start;
    proof {
        assert(b@.subrange(start as int, start as int) + first_word(
            b@.subrange(start as int, b@.len() as int),
        ) =~= first_word(b@.subrange(start as int, b@.len() as int)));
    }
    while i < b.len() && !is_space_byte(b[i])
        invariant
            start <= i <= b@.len(),
            first_word(b@.subrange(start as int, b@.len() as int)) == b@.subrange(
                start as int,
                i as int,
            ) + first_word(b@.subrange(i as int, b@.len() as int)),
        decreases b@.len() - i,
    {
        proof {
            let s = b@.subrange(i as int, b@.len() as int);
            assert(s.drop_first() =~= b@.subrange(i + 1, b@.len() as int));
            assert(b@.subrange(start as int, i as int) + seq![b@[i as int]] =~= b@.subrange(
                start as int,
                i + 1,
            ));
            assert(b@.subrange(start as int, i as int) + (seq![b@[i as int]] + first_word(
                s.drop_first(),
            )) =~= b@.subrange(start as int, i + 1) + first_word(s.drop_first()));
        }
        i = i + 1;
    }
    proof {
        assert(b@.subrange(start as int, i as int) + Seq::<u8>::empty() =~= b@.subrange(
            start as int,
            i as int,
        ));
    }
    i
}

/// Whether `kw` stands at byte `i` of `b`, compared without regard to ASCII case.
fn matches_at(b: &[u8], i: usize, kw: &[u8]) -> (r: bool)
    ensures
        r == keyword_at(b@, i as int, kw@),
{
    if i > b.len() || kw.len() > b.len() - i {
        return false;
    }
    let n = b.len();
    let mut j: usize = 0;
    while j < kw.len()
        invariant
            n == b@.len(),
            j <= kw@.len(),
            i + kw@.len() <= b@.len(),
            forall|k: int| 0 <= k < j ==> upper(b@[i + k]) == kw@[k],
        decreases kw@.len() - j,
    {
        if upper_byte(b[i + j]) != kw[j] {
            proof {
                assert(fold(b@.subrange(i as int, i + kw@.len()))[j as int] != kw@[j as int]);
            }
            return false;
        }
        j = j + 1;
    }
    proof {
        assert(fold(b@.subrange(i as int, i + kw@.len())) =~= kw@);
    }
    true
}

/// Whether bytes `start..end` of `b` spell `kw`, without regard to ASCII case.
fn word_is(b: &[u8], start: usize, end: usize, kw: &[u8]) -> (r: bool)
    requires
        start <= end <= b@.len(),
    ensures
        r == (fold(b@.subrange(start as int, end as int)) == kw@),
{
    if end - start != kw.len() {
        proof {
            assert(fold(b@.subrange(start as int, end as int)).len() != kw@.len());
        }
        return false;
    }
    matches_at(b, start, kw)
}

/// The kind of `sql`, read from its first whitespace-delimited word without
/// regard to ASCII case. Text whose first word is no keyword, and empty or
/// blank text, is `Other`.
pub fn detect_query_type(sql: &str) -> (r: QueryType)
    ensures
        r == query_type_of(sql.spec_bytes()),
{
    let b = sql.as_bytes();
    let start = space_end(b);
    let end = word_end(b, start);
    let select: [u8; 6] = [83, 69, 76, 69, 67, 84];
    let insert: [u8; 6] = [73, 78, 83, 69, 82, 84];
    let update: [u8; 6] = [85, 80, 68, 65, 84, 69];
    let delete: [u8; 6] = [68, 69, 76, 69, 84, 69];
    let create: [u8; 6] = [67, 82, 69, 65, 84, 69];
    let drop: [u8; 4] = [68, 82, 79, 80];
    let alter: [u8; 5] = [65, 76, 84, 69, 82];
    let begin: [u8; 5] = [66, 69, 71, 73, 78];
    let commit: [u8; 6] = [67, 79, 77, 77, 73, 84];
    let rollback: [u8; 8] = [82, 79, 76, 76, 66, 65, 67, 75];
    proof {
        assert(select@ =~= kw_select());
        assert(insert@ =~= kw_insert());
        assert(update@ =~= kw_update());
        assert(delete@ =~= kw_delete());
        assert(create@ =~= kw_create());
        assert(drop@ =~= kw_drop());
        assert(alter@ =~= kw_alter());
        assert(begin@ =~= kw_begin());
        assert(commit@ =~= kw_commit());
        assert(rollback@ =~= kw_rollback());
    }
    if word_is(b, start, end, select.as_slice()) {
        QueryType::Select
    } else if word_is(b, start, end, insert.as_slice()) {
        QueryType::Insert
    } else if word_is(b, start, end, update.as_slice()) {
        QueryType::Update
    } else if word_is(b, start, end, delete.as_slice()) {
        QueryType::Delete
    } else if word_is(b, start, end, create.as_slice()) {
        QueryType::Create
    } else if word_is(b, start, end, drop.as_slice()) {
        QueryType::Drop
    } else if word_is(b, start, end, alter.as_slice()) {
        QueryType::Alter
    } else if word_is(b, start, end, begin.as_slice()) {
        QueryType::Begin
    } else if word_is(b, start, end, commit.as_slice()) {
        QueryType::Commit
    } else if word_is(b, start, end, rollback.as_slice()) {
        QueryType::Rollback
    } else {
        QueryType::Other
    }
}

/// Whether `sql` must run on the row-returning path: after leading whitespace
/// it opens with the word SELECT (not as the prefix of a longer identifier), or
/// the word RETURNING stands anywhere in it, on identifier boundaries and
/// without regard to ASCII case. Runs in time linear in the length of `sql`
/// and allocates nothing.
pub fn should_use_query(sql: &str) -> (r: bool)
    ensures
        r == returns_rows(sql.spec_bytes()),
{
    let b = sql.as_bytes();
    let n = b.len();
    let start = space_end(b);
    let select: [u8; 6] = [83, 69, 76, 69, 67, 84];
    let returning: [u8; 9] = [82, 69, 84, 85, 82, 78, 73, 78, 71];
    proof {
        assert(select@ =~= kw_select());
        assert(returning@ =~= kw_returning());
        let t = skip_space(b@);
        if start + 6 <= n {
            assert(t.subrange(0, 6) =~= b@.subrange(start as int, start + 6));
        }
    }
    if matches_at(b, start, select.as_slice()) && (start + 6 == n || !is_ident_byte(
        b[start + 6],
    )) {
        return true;
    }
    if n < 9 {
        return false;
    }
    let mut i: usize = 0;
    while i <= n - 9
        invariant
            b@ == sql.spec_bytes(),
            !starts_with_select(b@),
            n == b@.len(),
            n >= 9,
            i <= n - 8,
            returning@ == kw_returning(),
            forall|k: int| 0 <= k < i ==> !returning_at(b@, k),
        decreases n - i,
    {
        if matches_at(b, i, returning.as_slice()) && (i == 0 || !is_ident_byte(b[i - 1])) && (i
            + 9 == n || !is_ident_byte(b[i + 9])) {
            proof {
                assert(returning_at(b@, i as int));
            }
            return true;
        }
        i = i + 1;
    }
    false
}

proof fn lemma_skip_space_prefix(ws: Seq<u8>, s: Seq<u8>)
    requires
        forall|i: int| 0 <= i < ws.len() ==> is_space(#[trigger] ws[i]),
    ensures
        skip_space(ws + s) == skip_space(s),
    decreases ws.len(),
{
    if ws.len() > 0 {
        assert((ws + s)[0] == ws[0]);
        assert((ws + s).drop_first() =~= ws.drop_first() + s);
        assert forall|i: int| 0 <= i < ws.drop_first().len() implies is_space(
            #[trigger] ws.drop_first()[i],
        ) by {
            assert(ws.drop_first()[i] == ws[i + 1]);
        }
        lemma_skip_space_prefix(ws.drop_first(), s);
    } else {
        assert(ws + s =~= s);
    }
}

proof fn lemma_fold_skip_space(b: Seq<u8>)
    ensures
        fold(skip_space(b)) == skip_space(fold(b)),
    decreases b.len(),
{
    if b.len() > 0 {
        assert(fold(b)[0] == upper(b[0]));
        if is_space(b[0]) {
            assert(fold(b).drop_first() =~= fold(b.drop_first()));
            lemma_fold_skip_space(b.drop_first());
        }
    } else {
        assert(fold(b) =~= b);
    }
}

proof fn lemma_fold_first_word(b: Seq<u8>)
    ensures
        fold(first_word(b)) == first_word(fold(b)),
    decreases b.len(),
{
    if b.len() == 0 {
        assert(fold(b) =~= b);
        assert(fold(Seq::<u8>::empty()) =~= Seq::<u8>::empty());
    } else if is_space(b[0]) {
        assert(fold(b)[0] == upper(b[0]));
        assert(fold(Seq::<u8>::empty()) =~= Seq::<u8>::empty());
    } else {
        assert(fold(b)[0] == upper(b[0]));
        lemma_fold_first_word(b.drop_first());
        assert(fold(seq![b[0]] + first_word(b.drop_first())) =~= seq![upper(b[0])] + fold(
            first_word(b.drop_first()),
        ));
        assert(fold(b).drop_first() =~= fold(b.drop_first()));
    }
}

/// Leading whitespace does not change a statement's kind: for any run `ws` of
/// spaces, tabs, line feeds and carriage returns, `ws + s` classifies as `s`.
pub proof fn law_classify_ignores_leading_space(ws: Seq<u8>, s: Seq<u8>)
    requires
        forall|i: int| 0 <= i < ws.len() ==> is_space(#[trigger] ws[i]),
    ensures
        query_type_of(ws + s) == query_type_of(s),
{
    lemma_skip_space_prefix(ws, s);
}

/// Classification ignores ASCII case: two statements that differ only in the
/// case of their letters have the same kind.
pub proof fn law_classify_ignores_case(s: Seq<u8>, t: Seq<u8>)
    requires
        fold(s) == fold(t),
    ensures
        query_type_of(s) == query_type_of(t),
{
    lemma_fold_skip_space(s);
    lemma_fold_skip_space(t);
    lemma_fold_first_word(skip_space(s));
    lemma_fold_first_word(skip_space(t));
}

} // verus!
