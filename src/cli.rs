use vstd::prelude::*;
use vstd::string::*;
use crate::errors::UrlError;
use crate::text::{contains, occurs_at, chars_of, matches_at, push_char, append_chars};

verus! {

/// What the program was asked to do.
#[derive(Debug, PartialEq, Eq)]
pub enum Commands {
    /// Log in, printing the QR code on the console or opening it as an image.
    Login { console: bool },
    /// Print the logged-in user's information.
    User,
    /// Download what a URL names.
    Download {
        url: Option<String>,
        /// Continue from the staging files that an earlier run left.
        resume: bool,
        /// Resolve a series by the whole URL rather than by its token.
        parse_input_url: bool,
        /// Let the operator pick which seasons of a series to download.
        choose_seasons: bool,
    },
}

/// One invocation of the program; `None` asks for the help text.
#[derive(Debug, PartialEq, Eq)]
pub struct Cli {
    pub command: Option<Commands>,
}

/// The invocation record for `command`, handed to the pipeline explicitly.
pub fn cli(command: Option<Commands>) -> (r: Cli)
    ensures
        r.command == command,
{
    Cli { command }
}

/// Whether this is a download that resumes from earlier staging files.
pub fn resume_download_value(cli: &Cli) -> (r: bool)
    ensures
        r <==> cli.command matches Some(Commands::Download { resume: true, .. }),
{
    match &cli.command {
        Some(Commands::Download { resume, .. }) => *resume,
        _ => false,
    }
}

/// Whether this is a download that resolves series by the whole URL.
pub fn parse_input_url_value(cli: &Cli) -> (r: bool)
    ensures
        r <==> cli.command matches Some(Commands::Download { parse_input_url: true, .. }),
{
    match &cli.command {
        Some(Commands::Download { parse_input_url, .. }) => *parse_input_url,
        _ => false,
    }
}

/// Whether this is a download where the operator picks the seasons.
pub fn choose_seasons_value(cli: &Cli) -> (r: bool)
    ensures
        r <==> cli.command matches Some(Commands::Download { choose_seasons: true, .. }),
{
    match &cli.command {
        Some(Commands::Download { choose_seasons, .. }) => *choose_seasons,
        _ => false,
    }
}

pub open spec fn http_scheme() -> Seq<char> {
    seq!['h', 't', 't', 'p', ':', '/', '/']
}

pub open spec fn https_scheme() -> Seq<char> {
    seq!['h', 't', 't', 'p', 's', ':', '/', '/']
}

/// `s` with every occurrence of `from` replaced by `to`, scanning from the
/// left and not overlapping, as std's `str::replace` does.
pub open spec fn replace_all(s: Seq<char>, from: Seq<char>, to: Seq<char>) -> Seq<char>
    decreases s.len(),
{
    if from.len() == 0 || s.len() < from.len() {
        s
    } else if s.subrange(0, from.len() as int) == from {
        to + replace_all(s.skip(from.len() as int), from, to)
    } else {
        seq![s[0]] + replace_all(s.skip(1), from, to)
    }
}

/// Whether `pat` occurs anywhere in `s`.
fn contains_chars(s: &Vec<char>, pat: &Vec<char>) -> (r: bool)
    ensures
        r == contains(s@, pat@),
{
    let mut i: usize = 0;
    while i < s.len()
        invariant
            i <= s.len(),
            forall|j: int| 0 <= j < i ==> !#[trigger] occurs_at(s@, j, pat@),
        decreases s.len() - i,
    {
        if matches_at(s, i, pat) {
            return true;
        }
        i = i + 1;
    }
    if matches_at(s, i, pat) {
        return true;
    }
    assert forall|j: int| !#[trigger] occurs_at(s@, j, pat@) by {
        if j > s@.len() {
            assert(!occurs_at(s@, j, pat@));
        }
    }
    false
}

fn replace_chars(s: &Vec<char>, from: &Vec<char>, to: &Vec<char>) -> (r: String)
    requires
        from.len() > 0,
    ensures
        r@ == replace_all(s@, from@, to@),
{
    let mut out = String::new();
    let mut i: usize = 0;
    assert(s@.skip(0) =~= s@);
    while i < s.len()
        invariant
            i <= s.len(),
            from.len() > 0,
            replace_all(s@, from@, to@) == out@ + replace_all(s@.skip(i as int), from@, to@),
        decreases s.len() - i,
    {
        let ghost rest = s@.skip(i as int);
        if matches_at(s, i, from) {
            proof {
                assert(rest.subrange(0, from@.len() as int) =~= s@.subrange(
                    i as int,
                    i + from@.len(),
                ));
                assert(rest.skip(from@.len() as int) =~= s@.skip(i + from@.len()));
            }
            append_chars(&mut out, to);
            i = i + from.len();
        } else {
            proof {
                assert(rest.skip(1) =~= s@.skip(i + 1));
                if rest.len() >= from@.len() {
                    assert(rest.subrange(0, from@.len() as int) =~= s@.subrange(
                        i as int,
                        i + from@.len(),
                    ));
                } else {
                    assert(rest =~= seq![rest[0]] + rest.skip(1));
                    assert(replace_all(rest.skip(1), from@, to@) == rest.skip(1));
                }
            }
            push_char(&mut out, s[i]);
            i = i + 1;
        }
        proof {
            assert(replace_all(s@, from@, to@) =~= out@ + replace_all(
                s@.skip(i as int),
                from@,
                to@,
            ));
        }
    }
    assert(s@.skip(i as int) =~= Seq::<char>::empty());
    assert(out@ + Seq::<char>::empty() =~= out@);
    out
}

/// Accepts a download argument only if it holds `http://` or `https://`,
/// and turns every `http://` into `https://`.
pub fn check_download_url(s: &str) -> (r: Result<String, UrlError>)
    ensures
        r is Err <==> !(contains(s@, http_scheme()) || contains(s@, https_scheme())),
        r matches Ok(t) ==> t@ == replace_all(s@, http_scheme(), https_scheme()),
{
    let chars = chars_of(s);
    let http: Vec<char> = vec!['h', 't', 't', 'p', ':', '/', '/'];
    let https: Vec<char> = vec!['h', 't', 't', 'p', 's', ':', '/', '/'];
    assert(http@ =~= http_scheme());
    assert(https@ =~= https_scheme());
    if !(contains_chars(&chars, &http) || contains_chars(&chars, &https)) {
        return Err(UrlError::NotValidUrl);
    }
    Ok(replace_chars(&chars, &http, &https))
}

} // verus!
