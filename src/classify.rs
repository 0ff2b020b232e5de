use vstd::prelude::*;
use vstd::string::*;
use crate::text::{
    is_digit, is_alnum, digits_value, occurs_at, all_digits, unsigned_digits,
    chars_of, string_of, is_ascii_digit, is_ascii_alnum, parse_u64, matches_at,
};
use crate::errors::{ClassificationError, ResolutionError};

verus! {

/// The text between an owner id and a collection id on a collection page.
pub open spec fn collection_marker() -> Seq<char> {
    seq![
        '/', 'c', 'h', 'a', 'n', 'n', 'e', 'l', '/', 'c', 'o', 'l', 'l', 'e', 'c', 't', 'i', 'o',
        'n', 'd', 'e', 't', 'a', 'i', 'l', '?', 's', 'i', 'd', '=',
    ]
}

/// The end of the run of decimal digits of `s` that starts at `j`.
pub open spec fn run_end(s: Seq<char>, j: int) -> int
    decreases s.len() - j,
{
    if 0 <= j < s.len() && is_digit(s[j]) {
        run_end(s, j + 1)
    } else {
        j
    }
}

/// A direct video id starts at `i`: `BV` and ten ASCII letters or digits.
pub open spec fn bv_at(s: Seq<char>, i: int) -> bool {
    &&& 0 <= i && i + 12 <= s.len()
    &&& s[i] == 'B' && s[i + 1] == 'V'
    &&& forall|j: int| i + 2 <= j < i + 12 ==> is_alnum(#[trigger] s[j])
}

/// A series or season token starts at `i`: `ep` or `ss`, then digits.
pub open spec fn series_at(s: Seq<char>, i: int) -> bool {
    &&& 0 <= i && i + 3 <= s.len()
    &&& (s[i] == 'e' && s[i + 1] == 'p') || (s[i] == 's' && s[i + 1] == 's')
    &&& is_digit(s[i + 2])
}

/// A collection page path starts at `i`: `/`, the owner's digits, the marker,
/// then the collection's digits.
pub open spec fn collection_at(s: Seq<char>, i: int) -> bool {
    let e1 = run_end(s, i + 1);
    &&& 0 <= i < s.len() && s[i] == '/'
    &&& e1 > i + 1
    &&& occurs_at(s, e1, collection_marker())
    &&& run_end(s, e1 + 30) > e1 + 30
}

/// A short link ends the text from `i` on: `//b`, digits, `.tv/`, then one
/// or more ASCII letters or digits up to the end.
pub open spec fn short_link_at(s: Seq<char>, i: int) -> bool {
    let e = run_end(s, i + 3);
    &&& occurs_at(s, i, seq!['/', '/', 'b'])
    &&& e > i + 3
    &&& occurs_at(s, e, seq!['.', 't', 'v', '/'])
    &&& e + 4 < s.len()
    &&& forall|j: int| e + 4 <= j < s.len() ==> is_alnum(#[trigger] s[j])
}

/// Whether `s` holds a short link.
pub open spec fn is_short_link_spec(s: Seq<char>) -> bool {
    exists|i: int| short_link_at(s, i)
}

/// `i` is the leftmost index of a direct id in `s`.
pub open spec fn first_bv(s: Seq<char>, i: int) -> bool {
    bv_at(s, i) && forall|j: int| 0 <= j < i ==> !#[trigger] bv_at(s, j)
}

/// `i` is the leftmost index of a series or season token in `s`.
pub open spec fn first_series(s: Seq<char>, i: int) -> bool {
    series_at(s, i) && forall|j: int| 0 <= j < i ==> !#[trigger] series_at(s, j)
}

/// `i` is the leftmost index of a collection page path in `s`.
pub open spec fn first_collection(s: Seq<char>, i: int) -> bool {
    collection_at(s, i) && forall|j: int| 0 <= j < i ==> !#[trigger] collection_at(s, j)
}

/// What an input URL names, as a mathematical value.
pub enum UrlKindView {
    DirectId(Seq<char>),
    SeriesOrSeason(Seq<char>),
    CollectionDetail(int, int),
    Unrecognized,
}

/// The classification of `s`: the first shape that occurs anywhere in `s`,
/// tried in the order direct id, series or season token, collection page,
/// each taken at its leftmost occurrence.
pub open spec fn classify_spec(s: Seq<char>) -> UrlKindView {
    if exists|i: int| #[trigger] first_bv(s, i) {
        let i = choose|i: int| #[trigger] first_bv(s, i);
        UrlKindView::DirectId(s.subrange(i, i + 12))
    } else if exists|i: int| #[trigger] first_series(s, i) {
        let i = choose|i: int| #[trigger] first_series(s, i);
        UrlKindView::SeriesOrSeason(s.subrange(i, run_end(s, i + 2)))
    } else if exists|i: int| #[trigger] first_collection(s, i) {
        let i = choose|i: int| #[trigger] first_collection(s, i);
        let e1 = run_end(s, i + 1);
        let e2 = run_end(s, e1 + 30);
        UrlKindView::CollectionDetail(
            digits_value(s.subrange(i + 1, e1)) as int,
            digits_value(s.subrange(e1 + 30, e2)) as int,
        )
    } else {
        UrlKindView::Unrecognized
    }
}

/// What an input URL names.
#[derive(Debug, PartialEq, Eq)]
pub enum UrlKind {
    /// A single video, by its `BV` id.
    DirectId(String),
    /// A series or a season, by its `ep` or `ss` token.
    SeriesOrSeason(String),
    /// A user's collection: owner id and collection id.
    CollectionDetail(i64, i64),
    /// None of the known shapes.
    Unrecognized,
}

impl UrlKind {
    pub open spec fn view(&self) -> UrlKindView {
        match self {
            UrlKind::DirectId(id) => UrlKindView::DirectId(id@),
            UrlKind::SeriesOrSeason(t) => UrlKindView::SeriesOrSeason(t@),
            UrlKind::CollectionDetail(m, c) => UrlKindView::CollectionDetail(*m as int, *c as int),
            UrlKind::Unrecognized => UrlKindView::Unrecognized,
        }
    }
}


proof fn lemma_run_end(s: Seq<char>, j: int)
    requires
        0 <= j <= s.len(),
    ensures
        j <= run_end(s, j) <= s.len(),
        forall|k: int| j <= k < run_end(s, j) ==> is_digit(#[trigger] s[k]),
        run_end(s, j) == s.len() || !is_digit(s[run_end(s, j)]),
    decreases s.len() - j,
{
    if j < s.len() && is_digit(s[j]) {
        lemma_run_end(s, j + 1);
    }
}

fn digit_run_end(s: &Vec<char>, j: usize) -> (r: usize)
    requires
        j <= s.len(),
    ensures
        r as int == run_end(s@, j as int),
        j <= r <= s.len(),
{
    let mut k: usize = j;
    while k < s.len() && is_ascii_digit(s[k])
        invariant
            j <= k <= s.len(),
            run_end(s@, j as int) == run_end(s@, k as int),
        decreases s.len() - k,
    {
        k = k + 1;
    }
    k
}

fn all_alnum_from(s: &Vec<char>, from: usize, to: usize) -> (r: bool)
    requires
        from <= to <= s.len(),
    ensures
        r == forall|j: int| from <= j < to ==> is_alnum(#[trigger] s@[j]),
{
    let mut k: usize = from;
    while k < to
        invariant
            from <= k <= to <= s.len(),
            forall|j: int| from <= j < k ==> is_alnum(#[trigger] s@[j]),
        decreases to - k,
    {
        if !is_ascii_alnum(s[k]) {
            return false;
        }
        k = k + 1;
    }
    true
}

fn bv_at_exec(s: &Vec<char>, i: usize) -> (r: bool)
    ensures
        r == bv_at(s@, i as int),
{
    if i > s.len() || 12 > s.len() - i {
        return false;
    }
    s[i] == 'B' && s[i + 1] == 'V' && all_alnum_from(s, i + 2, i + 12)
}

fn series_at_exec(s: &Vec<char>, i: usize) -> (r: bool)
    ensures
        r == series_at(s@, i as int),
{
    if i > s.len() || 3 > s.len() - i {
        return false;
    }
    ((s[i] == 'e' && s[i + 1] == 'p') || (s[i] == 's' && s[i + 1] == 's')) && is_ascii_digit(
        s[i + 2],
    )
}

fn marker_chars() -> (r: Vec<char>)
    ensures
        r@ == collection_marker(),
{
    let r = vec![
        '/', 'c', 'h', 'a', 'n', 'n', 'e', 'l', '/', 'c', 'o', 'l', 'l', 'e', 'c', 't', 'i', 'o',
        'n', 'd', 'e', 't', 'a', 'i', 'l', '?', 's', 'i', 'd', '=',
    ];
    assert(r@ =~= collection_marker());
    r
}

fn collection_at_exec(s: &Vec<char>, i: usize) -> (r: bool)
    ensures
        r == collection_at(s@, i as int),
{
    if i >= s.len() || s[i] != '/' {
        return false;
    }
    let e1 = digit_run_end(s, i + 1);
    if e1 <= i + 1 {
        return false;
    }
    if !matches_at(s, e1, &marker_chars()) {
        return false;
    }
    let e2 = digit_run_end(s, e1 + 30);
    e2 > e1 + 30
}

fn short_link_at_exec(s: &Vec<char>, i: usize) -> (r: bool)
    ensures
        r == short_link_at(s@, i as int),
{
    let slash: Vec<char> = vec!['/', '/', 'b'];
    let tv: Vec<char> = vec!['.', 't', 'v', '/'];
    assert(slash@ =~= seq!['/', '/', 'b']);
    assert(tv@ =~= seq!['.', 't', 'v', '/']);
    if !matches_at(s, i, &slash) {
        return false;
    }
    assert(i + 3 <= s.len());
    let e = digit_run_end(s, i + 3);
    e > i + 3 && matches_at(s, e, &tv) && e + 4 < s.len() && all_alnum_from(s, e + 4, s.len())
}

/// Whether `url` holds a short link, which must be redirected before it can
/// be classified.
pub fn is_short_link(url: &str) -> (r: bool)
    ensures
        r == is_short_link_spec(url@),
{
    let s = chars_of(url);
    let mut i: usize = 0;
    while i < s.len()
        invariant
            i <= s.len(),
            s@ == url@,
            forall|j: int| 0 <= j < i ==> !#[trigger] short_link_at(s@, j),
        decreases s.len() - i,
    {
        if short_link_at_exec(&s, i) {
            return true;
        }
        i = i + 1;
    }
    assert forall|j: int| !#[trigger] short_link_at(s@, j) by {
        if j >= s.len() && short_link_at(s@, j) {
            assert(occurs_at(s@, j, seq!['/', '/', 'b']));
        }
    }
    false
}

proof fn lemma_first_bv_unique(s: Seq<char>, i: int, j: int)
    requires
        first_bv(s, i),
        first_bv(s, j),
    ensures
        i == j,
{
    if i < j {
        assert(!bv_at(s, i));
    } else if j < i {
        assert(!bv_at(s, j));
    }
}

proof fn lemma_first_series_unique(s: Seq<char>, i: int, j: int)
    requires
        first_series(s, i),
        first_series(s, j),
    ensures
        i == j,
{
    if i < j {
        assert(!series_at(s, i));
    } else if j < i {
        assert(!series_at(s, j));
    }
}

proof fn lemma_first_collection_unique(s: Seq<char>, i: int, j: int)
    requires
        first_collection(s, i),
        first_collection(s, j),
    ensures
        i == j,
{
    if i < j {
        assert(!collection_at(s, i));
    } else if j < i {
        assert(!collection_at(s, j));
    }
}

proof fn lemma_first_bv_exists(s: Seq<char>, i: int)
    requires
        bv_at(s, i),
    ensures
        exists|k: int| #[trigger] first_bv(s, k),
    decreases i,
{
    if forall|j: int| 0 <= j < i ==> !#[trigger] bv_at(s, j) {
        assert(first_bv(s, i));
    } else {
        let j = choose|j: int| 0 <= j < i && #[trigger] bv_at(s, j);
        lemma_first_bv_exists(s, j);
    }
}

/// A URL that holds both a direct video id and a series or season token is
/// classified by its direct id, wherever the two stand.
pub proof fn lemma_direct_id_precedes_series(s: Seq<char>, i: int, j: int)
    requires
        bv_at(s, i),
        series_at(s, j),
    ensures
        classify_spec(s) is DirectId,
{
    lemma_first_bv_exists(s, i);
}

fn find_bv(s: &Vec<char>) -> (r: Option<usize>)
    ensures
        r matches Some(i) ==> first_bv(s@, i as int),
        r is None ==> forall|j: int| !#[trigger] bv_at(s@, j),
{
    let mut i: usize = 0;
    while i < s.len()
        invariant
            i <= s.len(),
            forall|j: int| 0 <= j < i ==> !#[trigger] bv_at(s@, j),
        decreases s.len() - i,
    {
        if bv_at_exec(s, i) {
            return Some(i);
        }
        i = i + 1;
    }
    None
}

fn find_series(s: &Vec<char>) -> (r: Option<usize>)
    ensures
        r matches Some(i) ==> first_series(s@, i as int),
        r is None ==> forall|j: int| !#[trigger] series_at(s@, j),
{
    let mut i: usize = 0;
    while i < s.len()
        invariant
            i <= s.len(),
            forall|j: int| 0 <= j < i ==> !#[trigger] series_at(s@, j),
        decreases s.len() - i,
    {
        if series_at_exec(s, i) {
            return Some(i);
        }
        i = i + 1;
    }
    None
}

fn find_collection(s: &Vec<char>) -> (r: Option<usize>)
    ensures
        r matches Some(i) ==> first_collection(s@, i as int),
        r is None ==> forall|j: int| !#[trigger] collection_at(s@, j),
{
    let mut i: usize = 0;
    while i < s.len()
        invariant
            i <= s.len(),
            forall|j: int| 0 <= j < i ==> !#[trigger] collection_at(s@, j),
        decreases s.len() - i,
    {
        if collection_at_exec(s, i) {
            return Some(i);
        }
        i = i + 1;
    }
    None
}

fn slice_chars(s: &Vec<char>, from: usize, to: usize) -> (r: Vec<char>)
    requires
        from <= to <= s.len(),
    ensures
        r@ == s@.subrange(from as int, to as int),
{
    let mut r: Vec<char> = Vec::new();
    let mut k: usize = from;
    while k < to
        invariant
            from <= k <= to <= s.len(),
            r@ == s@.subrange(from as int, k as int),
        decreases to - k,
    {
        r.push(s[k]);
        k = k + 1;
        assert(r@ =~= s@.subrange(from as int, k as int));
    }
    r
}

fn digits_to_i64(s: &Vec<char>, from: usize, to: usize) -> (r: Option<i64>)
    requires
        from < to <= s.len(),
        forall|k: int| from <= k < to ==> is_digit(#[trigger] s@[k]),
    ensures
        r is Some <==> digits_value(s@.subrange(from as int, to as int)) <= i64::MAX,
        r is Some ==> r->0 as int == digits_value(s@.subrange(from as int, to as int)),
{
    let sub = slice_chars(s, from, to);
    assert(unsigned_digits(sub@) == sub@) by {
        assert(is_digit(s@[from as int]));
        assert(sub@[0] == s@[from as int]);
    }
    assert(all_digits(sub@)) by {
        assert forall|k: int| 0 <= k < sub@.len() implies is_digit(#[trigger] sub@[k]) by {
            assert(sub@[k] == s@[from + k]);
        }
    }
    match parse_u64(&sub) {
        Some(v) => {
            if v <= i64::MAX as u64 {
                Some(v as i64)
            } else {
                None
            }
        },
        None => None,
    }
}

/// Classifies `url` by the first shape it holds, tried in a fixed order:
/// a `BV` id, then an `ep` or `ss` token, then a collection page. The
/// only failure is a collection page whose ids do not fit in an `i64`.
pub fn classify(url: &str) -> (r: Result<UrlKind, ClassificationError>)
    ensures
        r matches Ok(k) ==> k@ == classify_spec(url@),
        r is Err <==> (classify_spec(url@) matches UrlKindView::CollectionDetail(m, c) && (
        m > i64::MAX || c > i64::MAX)),
{
    let s = chars_of(url);
    if let Some(i) = find_bv(&s) {
        proof {
            let c = choose|c: int| #[trigger] first_bv(s@, c);
            lemma_first_bv_unique(s@, i as int, c);
        }
        return Ok(UrlKind::DirectId(string_of(&slice_chars(&s, i, i + 12))));
    }
    assert(!exists|c: int| #[trigger] first_bv(s@, c));
    if let Some(i) = find_series(&s) {
        let e = digit_run_end(&s, i + 2);
        proof {
            let c = choose|c: int| #[trigger] first_series(s@, c);
            lemma_first_series_unique(s@, i as int, c);
        }
        return Ok(UrlKind::SeriesOrSeason(string_of(&slice_chars(&s, i, e))));
    }
    assert(!exists|c: int| #[trigger] first_series(s@, c));
    if let Some(i) = find_collection(&s) {
        let e1 = digit_run_end(&s, i + 1);
        proof {
            let c = choose|c: int| #[trigger] first_collection(s@, c);
            lemma_first_collection_unique(s@, i as int, c);
            lemma_run_end(s@, i + 1);
        }
        assert(occurs_at(s@, e1 as int, collection_marker()));
        let e2 = digit_run_end(&s, e1 + 30);
        proof {
            lemma_run_end(s@, e1 + 30);
        }
        let owner = digits_to_i64(&s, i + 1, e1);
        let coll = digits_to_i64(&s, e1 + 30, e2);
        return match (owner, coll) {
            (Some(m), Some(c)) => Ok(UrlKind::CollectionDetail(m, c)),
            _ => Err(ClassificationError::MalformedCapture),
        };
    }
    assert(!exists|c: int| #[trigger] first_collection(s@, c));
    Ok(UrlKind::Unrecognized)
}

/// Where a short link leads: the `Location` of a `302` answer, or the link
/// itself when that answer carries none. Any other status fails.
pub fn redirect_target(status: u16, location: Option<String>, url: String) -> (r: Result<
    String,
    ResolutionError,
>)
    ensures
        status != 302 ==> r == Err::<String, ResolutionError>(
            ResolutionError::ShortLinkRedirectFailed,
        ),
        status == 302 ==> r == Ok::<String, ResolutionError>(
            match location {
                Some(l) => l,
                None => url,
            },
        ),
{
    if status != 302 {
        return Err(ResolutionError::ShortLinkRedirectFailed);
    }
    match location {
        Some(l) => Ok(l),
        None => Ok(url),
    }
}

} // verus!
