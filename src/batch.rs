use vstd::prelude::*;
use vstd::string::*;
use crate::text::{dec_int, decimal_signed, push_char, append_chars, chars_of, string_of};

verus! {

/// How many items one page of a collection holds.
pub const PAGE_SIZE: i64 = 20;

/// Whether a file system refuses `c` in a file name.
pub open spec fn is_illegal_in_name(c: char) -> bool {
    c == '/' || c == '\\' || c == ':' || c == '*' || c == '?' || c == '"' || c == '<' || c == '>'
        || c == '|' || (c as u32) < 32
}

/// `s` with each character that a file system refuses replaced by `_`.
pub open spec fn sanitized(s: Seq<char>) -> Seq<char> {
    s.map_values(|c: char| if is_illegal_in_name(c) { '_' } else { c })
}

/// A file name made from `name`: each character that a file system refuses
/// becomes `_`.
pub fn allowed_file_name(name: &str) -> (r: String)
    ensures
        r@ == sanitized(name@),
{
    let s = chars_of(name);
    let mut out: Vec<char> = Vec::new();
    let mut i: usize = 0;
    while i < s.len()
        invariant
            i <= s.len(),
            s@ == name@,
            out@ == sanitized(s@.subrange(0, i as int)),
        decreases s.len() - i,
    {
        let c = s[i];
        let bad = c == '/' || c == '\\' || c == ':' || c == '*' || c == '?' || c == '"' || c == '<'
            || c == '>' || c == '|' || (c as u32) < 32;
        if bad {
            out.push('_');
        } else {
            out.push(c);
        }
        i = i + 1;
        assert(out@ =~= sanitized(s@.subrange(0, i as int)));
    }
    assert(s@.subrange(0, s@.len() as int) =~= s@);
    string_of(&out)
}

/// The three files of one item: two staging tracks and the merged output.
#[derive(Debug, Clone, PartialEq, Eq)]
pub struct ItemFiles {
    pub video: String,
    pub audio: String,
    pub output: String,
}

pub open spec fn video_suffix() -> Seq<char> {
    seq!['.', 'v', 'i', 'd', 'e', 'o']
}

pub open spec fn audio_suffix() -> Seq<char> {
    seq!['.', 'a', 'u', 'd', 'i', 'o']
}

pub open spec fn output_suffix() -> Seq<char> {
    seq!['.', 'm', 'p', '4']
}

fn with_suffix(base: &Vec<char>, suffix: &Vec<char>) -> (r: String)
    ensures
        r@ == base@ + suffix@,
{
    let mut r = string_of(base);
    append_chars(&mut r, suffix);
    r
}

/// The files of the item titled `title`: `<name>.video`, `<name>.audio` and
/// `<name>.mp4`, where `<name>` is the title made fit for a file name.
pub fn item_files(title: &str) -> (r: ItemFiles)
    ensures
        r.video@ == sanitized(title@) + video_suffix(),
        r.audio@ == sanitized(title@) + audio_suffix(),
        r.output@ == sanitized(title@) + output_suffix(),
{
    let name = allowed_file_name(title);
    let base = chars_of(name.as_str());
    let v: Vec<char> = vec!['.', 'v', 'i', 'd', 'e', 'o'];
    let a: Vec<char> = vec!['.', 'a', 'u', 'd', 'i', 'o'];
    let o: Vec<char> = vec!['.', 'm', 'p', '4'];
    assert(v@ =~= video_suffix());
    assert(a@ =~= audio_suffix());
    assert(o@ =~= output_suffix());
    ItemFiles { video: with_suffix(&base, &v), audio: with_suffix(&base, &a), output: with_suffix(&base, &o) }
}

/// The title of an episode: `<index>. (<title_format>) <long_title>`.
pub open spec fn episode_title_spec(index: int, title_format: Seq<char>, long_title: Seq<char>) -> Seq<
    char,
> {
    dec_int(index) + seq!['.', ' ', '('] + title_format + seq![')', ' '] + long_title
}

/// The title of an episode: `<index>. (<title_format>) <long_title>`.
pub fn episode_title(index: i64, title_format: &str, long_title: &str) -> (r: String)
    ensures
        r@ == episode_title_spec(index as int, title_format@, long_title@),
{
    let mut r = decimal_signed(index);
    push_char(&mut r, '.');
    push_char(&mut r, ' ');
    push_char(&mut r, '(');
    append_chars(&mut r, &chars_of(title_format));
    push_char(&mut r, ')');
    push_char(&mut r, ' ');
    append_chars(&mut r, &chars_of(long_title));
    assert(r@ =~= episode_title_spec(index as int, title_format@, long_title@));
    r
}

/// The folder of a season: `<id> (<title>) <season_title>`, made fit for a
/// file name.
pub open spec fn season_folder_spec(id: int, title: Seq<char>, season_title: Seq<char>) -> Seq<char> {
    sanitized(dec_int(id) + seq![' ', '('] + title + seq![')', ' '] + season_title)
}

/// The folder of a season: `<id> (<title>) <season_title>`, made fit for a
/// file name.
pub fn season_folder(id: i64, title: &str, season_title: &str) -> (r: String)
    ensures
        r@ == season_folder_spec(id as int, title@, season_title@),
{
    let mut r = decimal_signed(id);
    push_char(&mut r, ' ');
    push_char(&mut r, '(');
    append_chars(&mut r, &chars_of(title));
    push_char(&mut r, ')');
    push_char(&mut r, ' ');
    append_chars(&mut r, &chars_of(season_title));
    allowed_file_name(r.as_str())
}

/// The ids of the seasons that the operator picked, by position, in the
/// order of the series' list.
pub open spec fn picked_ids(ids: Seq<i64>, picked: Seq<usize>) -> Seq<i64>
    decreases ids.len(),
{
    if ids.len() == 0 {
        Seq::empty()
    } else {
        let p = picked_ids(ids.drop_last(), picked);
        if picked.contains((ids.len() - 1) as usize) {
            p.push(ids.last())
        } else {
            p
        }
    }
}

/// The ids of the seasons that the operator picked, by position, in the
/// order of the series' list.
pub fn chosen_season_ids(ids: &Vec<i64>, picked: &Vec<usize>) -> (r: Vec<i64>)
    ensures
        r@ == picked_ids(ids@, picked@),
{
    let mut r: Vec<i64> = Vec::new();
    let mut i: usize = 0;
    assert(ids@.subrange(0, 0) =~= Seq::<i64>::empty());
    while i < ids.len()
        invariant
            i <= ids.len(),
            r@ == picked_ids(ids@.subrange(0, i as int), picked@),
        decreases ids.len() - i,
    {
        let ghost pre = ids@.subrange(0, i as int);
        let ghost next = ids@.subrange(0, i + 1);
        assert(next.drop_last() =~= pre);
        let mut found = false;
        let mut k: usize = 0;
        while k < picked.len()
            invariant
                k <= picked.len(),
                found <==> exists|m: int| 0 <= m < k && picked@[m] == i,
            decreases picked.len() - k,
        {
            if picked[k] == i {
                found = true;
            }
            k = k + 1;
        }
        if found {
            r.push(ids[i]);
        }
        i = i + 1;
    }
    assert(ids@.subrange(0, ids@.len() as int) =~= ids@);
    r
}

/// Whether `id` is among `ids`.
pub fn includes_id(ids: &Vec<i64>, id: i64) -> (r: bool)
    ensures
        r == ids@.contains(id),
{
    let mut k: usize = 0;
    while k < ids.len()
        invariant
            k <= ids.len(),
            forall|m: int| 0 <= m < k ==> ids@[m] != id,
        decreases ids.len() - k,
    {
        if ids[k] == id {
            return true;
        }
        k = k + 1;
    }
    false
}

/// Whether a collection has a page after page `page_num` of `page_size`
/// items: it does while fewer than `total` items have been covered.
pub fn has_next_page(page_size: i64, page_num: i64, total: i64) -> (r: bool)
    ensures
        r == (page_size * page_num < total),
{
    let a = page_size as i128;
    let b = page_num as i128;
    assert(-0x8000_0000_0000_0000 <= a <= 0x7fff_ffff_ffff_ffff);
    assert(-0x8000_0000_0000_0000 <= b <= 0x7fff_ffff_ffff_ffff);
    assert(-0x4000_0000_0000_0000_0000_0000_0000_0000 <= a * b <= 0x4000_0000_0000_0000_0000_0000_0000_0000)
        by (nonlinear_arith)
        requires
            -0x8000_0000_0000_0000 <= a <= 0x7fff_ffff_ffff_ffff,
            -0x8000_0000_0000_0000 <= b <= 0x7fff_ffff_ffff_ffff,
    ;
    let covered: i128 = a * b;
    covered < total as i128
}

} // verus!
