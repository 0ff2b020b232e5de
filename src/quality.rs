use vstd::prelude::*;
use vstd::string::*;
use crate::errors::{ResolutionError, SelectionError};
use crate::text::{dec_int, decimal_signed, push_char, append_chars, chars_of};

verus! {

/// Which kind of track a quality option belongs to.
#[derive(Debug, Clone, Copy, PartialEq, Eq)]
pub enum TrackKind {
    Video,
    Audio,
}

/// One stream of a track at one quality.
#[derive(Debug, Clone, PartialEq, Eq)]
pub struct QualityOption {
    /// The platform's quality id.
    pub id: i64,
    /// Where the stream is fetched from.
    pub stream_url: String,
}

/// A quality that the operator can pick, with the name shown for it.
#[derive(Debug, Clone, PartialEq, Eq)]
pub struct QualityChoice {
    pub id: i64,
    pub label: String,
}

/// The ids of `options`, in order.
pub open spec fn ids_of(options: Seq<QualityOption>) -> Seq<i64> {
    options.map_values(|o: QualityOption| o.id)
}

/// `s` without repeated values, each kept where it first occurs.
pub open spec fn dedup(s: Seq<i64>) -> Seq<i64>
    decreases s.len(),
{
    if s.len() == 0 {
        Seq::empty()
    } else {
        let d = dedup(s.drop_last());
        if d.contains(s.last()) {
            d
        } else {
            d.push(s.last())
        }
    }
}

/// The text `"<prefix>-<id>"` for a quality without a known name.
pub open spec fn generic_label(kind: TrackKind, id: int) -> Seq<char> {
    match kind {
        TrackKind::Video => seq!['V', 'I', 'D', 'E', 'O', '-'] + dec_int(id),
        TrackKind::Audio => seq!['A', 'U', 'D', 'I', 'O', '-'] + dec_int(id),
    }
}

/// The name shown for a quality id.
pub open spec fn label_spec(kind: TrackKind, id: i64) -> Seq<char> {
    match kind {
        TrackKind::Video => if id == 120 {
            "4K"@
        } else if id == 116 {
            "1080P 60"@
        } else if id == 80 {
            "1080P"@
        } else if id == 64 {
            "720P"@
        } else if id == 32 {
            "480P"@
        } else if id == 16 {
            "360P"@
        } else {
            generic_label(kind, id as int)
        },
        TrackKind::Audio => if id == 30216 {
            "64K"@
        } else if id == 30232 {
            "132K"@
        } else if id == 30280 {
            "192K"@
        } else {
            generic_label(kind, id as int)
        },
    }
}

fn generic_quality_label(kind: TrackKind, id: i64) -> (r: String)
    ensures
        r@ == generic_label(kind, id as int),
{
    let mut r = String::new();
    match kind {
        TrackKind::Video => {
            push_char(&mut r, 'V');
            push_char(&mut r, 'I');
            push_char(&mut r, 'D');
            push_char(&mut r, 'E');
            push_char(&mut r, 'O');
        },
        TrackKind::Audio => {
            push_char(&mut r, 'A');
            push_char(&mut r, 'U');
            push_char(&mut r, 'D');
            push_char(&mut r, 'I');
            push_char(&mut r, 'O');
        },
    }
    push_char(&mut r, '-');
    let n = decimal_signed(id);
    append_chars(&mut r, &chars_of(n.as_str()));
    assert(r@ =~= generic_label(kind, id as int));
    r
}

/// The name shown for a quality id: a known resolution or bit rate, else
/// `VIDEO-<id>` or `AUDIO-<id>`.
pub fn quality_label(kind: TrackKind, id: i64) -> (r: String)
    ensures
        r@ == label_spec(kind, id),
{
    match kind {
        TrackKind::Video => if id == 120 {
            String::from_str("4K")
        } else if id == 116 {
            String::from_str("1080P 60")
        } else if id == 80 {
            String::from_str("1080P")
        } else if id == 64 {
            String::from_str("720P")
        } else if id == 32 {
            String::from_str("480P")
        } else if id == 16 {
            String::from_str("360P")
        } else {
            generic_quality_label(kind, id)
        },
        TrackKind::Audio => if id == 30216 {
            String::from_str("64K")
        } else if id == 30232 {
            String::from_str("132K")
        } else if id == 30280 {
            String::from_str("192K")
        } else {
            generic_quality_label(kind, id)
        },
    }
}

/// What `dedup` keeps: every value of `s`, each once.
pub proof fn lemma_dedup_members(s: Seq<i64>)
    ensures
        forall|x: i64| #[trigger] dedup(s).contains(x) <==> s.contains(x),
        forall|i: int, j: int|
            0 <= i < j < dedup(s).len() ==> #[trigger] dedup(s)[i] != #[trigger] dedup(s)[j],
    decreases s.len(),
{
    if s.len() > 0 {
        let p = s.drop_last();
        lemma_dedup_members(p);
        assert forall|x: i64| #[trigger] s.contains(x) <==> p.contains(x) || x == s.last() by {
            if s.contains(x) {
                let k = choose|k: int| 0 <= k < s.len() && s[k] == x;
                if k < s.len() - 1 {
                    assert(p[k] == x);
                }
            }
            if p.contains(x) {
                let k = choose|k: int| 0 <= k < p.len() && p[k] == x;
                assert(s[k] == x);
            }
            if x == s.last() {
                assert(s[s.len() - 1] == x);
            }
        }
        let d = dedup(p);
        if !d.contains(s.last()) {
            let e = d.push(s.last());
            assert forall|x: i64| #[trigger] e.contains(x) <==> d.contains(x) || x == s.last() by {
                if e.contains(x) {
                    let k = choose|k: int| 0 <= k < e.len() && e[k] == x;
                    if k < d.len() {
                        assert(d[k] == x);
                    }
                }
                if d.contains(x) {
                    let k = choose|k: int| 0 <= k < d.len() && d[k] == x;
                    assert(e[k] == x);
                }
                if x == s.last() {
                    assert(e[e.len() - 1] == x);
                }
            }
            assert forall|i: int, j: int| 0 <= i < j < e.len() implies #[trigger] e[i]
                != #[trigger] e[j] by {
                if j == e.len() - 1 {
                    assert(d[i] == e[i]);
                    assert(d.contains(e[i]));
                } else {
                    assert(d[i] != d[j]);
                }
            }
        }
    }
}

/// The distinct quality ids of `options`, each where it first occurs.
pub fn distinct_ids(options: &Vec<QualityOption>) -> (r: Vec<i64>)
    ensures
        r@ == dedup(ids_of(options@)),
{
    let mut r: Vec<i64> = Vec::new();
    let mut i: usize = 0;
    assert(ids_of(options@.subrange(0, 0)) =~= Seq::<i64>::empty());
    while i < options.len()
        invariant
            i <= options.len(),
            r@ == dedup(ids_of(options@.subrange(0, i as int))),
        decreases options.len() - i,
    {
        let id = options[i].id;
        let ghost pre = ids_of(options@.subrange(0, i as int));
        let ghost next = ids_of(options@.subrange(0, i + 1));
        assert(next.drop_last() =~= pre);
        assert(next.last() == id);
        let mut seen = false;
        let mut k: usize = 0;
        while k < r.len()
            invariant
                k <= r.len(),
                seen <==> exists|m: int| 0 <= m < k && r@[m] == id,
            decreases r.len() - k,
        {
            if r[k] == id {
                seen = true;
            }
            k = k + 1;
        }
        if !seen {
            r.push(id);
        }
        i = i + 1;
    }
    assert(options@.subrange(0, options@.len() as int) =~= options@);
    r
}

/// The qualities to offer the operator: one per distinct id, in the order
/// the ids first occur, each with its name.
pub fn quality_choices(options: &Vec<QualityOption>, kind: TrackKind) -> (r: Vec<QualityChoice>)
    ensures
        r@.len() == dedup(ids_of(options@)).len(),
        forall|k: int|
            0 <= k < r@.len() ==> #[trigger] r@[k].id == dedup(ids_of(options@))[k] && r@[k].label@
                == label_spec(kind, r@[k].id),
{
    let ids = distinct_ids(options);
    let mut r: Vec<QualityChoice> = Vec::new();
    let mut k: usize = 0;
    while k < ids.len()
        invariant
            k <= ids.len(),
            ids@ == dedup(ids_of(options@)),
            r@.len() == k,
            forall|m: int|
                0 <= m < k ==> #[trigger] r@[m].id == ids@[m] && r@[m].label@ == label_spec(
                    kind,
                    r@[m].id,
                ),
        decreases ids.len() - k,
    {
        let id = ids[k];
        r.push(QualityChoice { id, label: quality_label(kind, id) });
        k = k + 1;
    }
    r
}

/// The index of the first option with quality `id`, if any has it.
pub fn find_option(options: &Vec<QualityOption>, id: i64) -> (r: Option<usize>)
    ensures
        r is None <==> !ids_of(options@).contains(id),
        r matches Some(i) ==> i < options@.len() && options@[i as int].id == id && forall|j: int|
            0 <= j < i ==> #[trigger] options@[j].id != id,
{
    let mut i: usize = 0;
    while i < options.len()
        invariant
            i <= options.len(),
            forall|j: int| 0 <= j < i ==> #[trigger] options@[j].id != id,
        decreases options.len() - i,
    {
        if options[i].id == id {
            assert(ids_of(options@)[i as int] == id);
            return Some(i);
        }
        i = i + 1;
    }
    assert(!ids_of(options@).contains(id)) by {
        if ids_of(options@).contains(id) {
            let k = choose|k: int| 0 <= k < ids_of(options@).len() && ids_of(options@)[k] == id;
            assert(options@[k].id == id);
        }
    }
    None
}

/// Picks a quality without asking: the option with the highest id, the
/// first of them on a tie. A track with no option fails.
pub fn select_auto(options: &Vec<QualityOption>) -> (r: Result<usize, ResolutionError>)
    ensures
        options@.len() == 0 ==> r == Err::<usize, ResolutionError>(ResolutionError::EmptyManifest),
        options@.len() > 0 ==> r is Ok,
        r matches Ok(i) ==> i < options@.len() && (forall|j: int|
            0 <= j < options@.len() ==> #[trigger] options@[j].id <= options@[i as int].id) && (
        forall|j: int| 0 <= j < i ==> #[trigger] options@[j].id < options@[i as int].id),
{
    if options.len() == 0 {
        return Err(ResolutionError::EmptyManifest);
    }
    let mut best: usize = 0;
    let mut i: usize = 1;
    while i < options.len()
        invariant
            1 <= i <= options.len(),
            best < i,
            forall|j: int| 0 <= j < i ==> #[trigger] options@[j].id <= options@[best as int].id,
            forall|j: int| 0 <= j < best ==> #[trigger] options@[j].id < options@[best as int].id,
        decreases options.len() - i,
    {
        if options[i].id > options[best].id {
            best = i;
        }
        i = i + 1;
    }
    Ok(best)
}

/// A manifest must offer at least one format: one with none fails as empty.
pub fn check_formats(format_count: usize) -> (r: Result<(), ResolutionError>)
    ensures
        format_count == 0 ==> r == Err::<(), ResolutionError>(ResolutionError::EmptyManifest),
        format_count > 0 ==> r == Ok::<(), ResolutionError>(()),
{
    if format_count == 0 {
        Err(ResolutionError::EmptyManifest)
    } else {
        Ok(())
    }
}

/// Turns the operator's pick among the offered qualities into an option:
/// the first option with the picked id. No pick means the operator gave up.
pub fn select_interactive(options: &Vec<QualityOption>, choice: Option<usize>) -> (r: Result<
    usize,
    SelectionError,
>)
    requires
        choice matches Some(k) ==> k < dedup(ids_of(options@)).len(),
    ensures
        choice is None ==> r == Err::<usize, SelectionError>(SelectionError::Aborted),
        choice matches Some(k) ==> (r matches Ok(i) && i < options@.len() && options@[i as int].id
            == dedup(ids_of(options@))[k as int] && forall|j: int|
            0 <= j < i ==> #[trigger] options@[j].id != options@[i as int].id),
{
    match choice {
        None => Err(SelectionError::Aborted),
        Some(k) => {
            let ids = distinct_ids(options);
            let id = ids[k];
            proof {
                lemma_dedup_members(ids_of(options@));
                assert(ids@.contains(id));
            }
            match find_option(options, id) {
                Some(i) => Ok(i),
                None => Err(SelectionError::Aborted),
            }
        },
    }
}

/// How a single video is delivered.
#[derive(Debug, Clone, Copy, PartialEq, Eq)]
pub enum VideoFormat {
    /// Separate video and audio tracks, up to the highest qualities.
    Dash,
    /// One combined stream at a low quality.
    Mp4,
}

/// The format the operator picked from the list `[dash, mp4]`.
pub fn choose_video_format(choice: usize) -> (r: Option<VideoFormat>)
    ensures
        choice == 0 ==> r == Some(VideoFormat::Dash),
        choice == 1 ==> r == Some(VideoFormat::Mp4),
        choice > 1 ==> r is None,
{
    if choice == 0 {
        Some(VideoFormat::Dash)
    } else if choice == 1 {
        Some(VideoFormat::Mp4)
    } else {
        None
    }
}

} // verus!
