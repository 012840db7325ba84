//! The common path under which all files of one simulation run are written.
//!
//! A run is labelled by an id built from the output prefix, the wall-clock
//! time at startup and the library version; every output file is the id with
//! another extension, inside a directory also named by the id. The stored
//! path carries a placeholder extension so that swapping extensions never
//! eats into the id, whose prefix may contain dots.

use vstd::prelude::*;

verus! {

/// The decimal digit character of `d`.
pub open spec fn digit_char(d: int) -> char {
    if d == 0 { '0' }
    else if d == 1 { '1' }
    else if d == 2 { '2' }
    else if d == 3 { '3' }
    else if d == 4 { '4' }
    else if d == 5 { '5' }
    else if d == 6 { '6' }
    else if d == 7 { '7' }
    else if d == 8 { '8' }
    else { '9' }
}

/// Two decimal digits, zero padded.
pub open spec fn spec_pad2(v: int) -> Seq<char> {
    seq![digit_char(v / 10), digit_char(v % 10)]
}

/// Four decimal digits, zero padded.
pub open spec fn spec_pad4(v: int) -> Seq<char> {
    seq![digit_char(v / 1000), digit_char((v / 100) % 10), digit_char((v / 10) % 10),
        digit_char(v % 10)]
}

/// A year, four digits with a sign in front of the years before our era.
pub open spec fn spec_year(y: int) -> Seq<char> {
    if y < 0 {
        seq!['-'] + spec_pad4(-y)
    } else {
        spec_pad4(y)
    }
}

/// `s` with every dot replaced by an underscore.
pub open spec fn spec_underscored(s: Seq<char>) -> Seq<char> {
    s.map_values(|c: char| if c == '.' { '_' } else { c })
}

/// The version of the library.
pub open spec fn spec_version() -> Seq<char> {
    "0.1.0"@
}

/// The output id: prefix, date and time of the run, and the library version
/// with its dots replaced, so that the id's only dots are those of the
/// prefix and a trailing file extension survives swapping.
pub open spec fn spec_output_id(
    prefix: Seq<char>, y: int, mo: int, d: int, h: int, mi: int, s: int,
) -> Seq<char> {
    prefix + "-"@ + spec_year(y) + "-"@ + spec_pad2(mo) + "-"@ + spec_pad2(d) + "_"@
        + spec_pad2(h) + spec_pad2(mi) + spec_pad2(s) + "_v"@ + spec_underscored(spec_version())
}

/// The common path of a run: a directory named by the id inside the output
/// root, holding files named by the id, with a placeholder extension.
pub open spec fn spec_path(root: Seq<char>, id: Seq<char>) -> Seq<char> {
    root + "/"@ + id + "/"@ + id + ".ext"@
}

/// The calendar fields a clock reading can take.
pub open spec fn calendar_in_range(
    y: int, mo: int, d: int, h: int, mi: int, s: int,
) -> bool {
    &&& -9999 <= y <= 9999
    &&& 1 <= mo <= 12
    &&& 1 <= d <= 31
    &&& 0 <= h < 24
    &&& 0 <= mi < 60
    &&& 0 <= s < 60
}

/// `id` is an output id for `prefix`, stamped with some calendar time.
pub open spec fn is_output_id(id: Seq<char>, prefix: Seq<char>) -> bool {
    exists|y: int, mo: int, d: int, h: int, mi: int, s: int|
        #![auto]
        calendar_in_range(y, mo, d, h, mi, s) && id == spec_output_id(prefix, y, mo, d, h, mi, s)
}

/// Relies on time::OffsetDateTime::now_utc and its calendar accessors: the
/// year of a date lies in -9999..=9999, the month in 1..=12, the day in
/// 1..=31, the hour below 24, minute and second below 60, as the time
/// crate's documentation states for each accessor.
#[verifier::external_body]
fn now_calendar() -> (r: (i32, u8, u8, u8, u8, u8))
    ensures
        calendar_in_range(r.0 as int, r.1 as int, r.2 as int, r.3 as int, r.4 as int, r.5 as int),
{
    let t = time::OffsetDateTime::now_utc();
    (t.year(), u8::from(t.month()), t.day(), t.hour(), t.minute(), t.second())
}

/// The single decimal digit `d` as a string.
fn digit_str(d: u64) -> (r: &'static str)
    requires
        d < 10,
    ensures
        r@ =~= seq![digit_char(d as int)],
{
    proof {
        reveal_strlit("0");
        reveal_strlit("1");
        reveal_strlit("2");
        reveal_strlit("3");
        reveal_strlit("4");
        reveal_strlit("5");
        reveal_strlit("6");
        reveal_strlit("7");
        reveal_strlit("8");
        reveal_strlit("9");
    }
    match d {
        0 => "0",
        1 => "1",
        2 => "2",
        3 => "3",
        4 => "4",
        5 => "5",
        6 => "6",
        7 => "7",
        8 => "8",
        _ => "9",
    }
}

/// `v` as two decimal digits, zero padded.
fn pad2(v: u64) -> (r: String)
    requires
        v < 100,
    ensures
        r@ =~= spec_pad2(v as int),
{
    String::from_str(digit_str(v / 10)).concat(digit_str(v % 10))
}

/// `v` as four decimal digits, zero padded.
fn pad4(v: u64) -> (r: String)
    requires
        v < 10000,
    ensures
        r@ =~= spec_pad4(v as int),
{
    String::from_str(digit_str(v / 1000))
        .concat(digit_str((v / 100) % 10))
        .concat(digit_str((v / 10) % 10))
        .concat(digit_str(v % 10))
}

/// Returns `s` with every dot replaced by an underscore.
fn replace_dots(s: &str) -> (r: String)
    ensures
        r@ =~= spec_underscored(s@),
{
    let n = s.unicode_len();
    let mut r = String::new();
    let mut i: usize = 0;
    while i < n
        invariant
            i <= n,
            n == s@.len(),
            r@ =~= spec_underscored(s@.take(i as int)),
        decreases n - i,
    {
        let c = s.get_char(i);
        if c == '.' {
            r.append("_");
            proof {
                reveal_strlit("_");
            }
        } else {
            let piece = s.substring_char(i, i + 1);
            r.append(piece);
        }
        proof {
            assert(s@.take(i + 1).drop_last() =~= s@.take(i as int));
            assert(spec_underscored(s@.take(i + 1))
                =~= spec_underscored(s@.take(i as int)).push(
                    if s@[i as int] == '.' { '_' } else { s@[i as int] }));
        }
        i = i + 1;
    }
    proof {
        assert(s@.take(n as int) =~= s@);
    }
    r
}

/// Builds the output id for `prefix` from a calendar reading: the prefix,
/// the date and time of day, and the underscored library version.
fn format_output_id(prefix: &str, y: i32, mo: u8, d: u8, h: u8, mi: u8, s: u8) -> (r: String)
    requires
        calendar_in_range(y as int, mo as int, d as int, h as int, mi as int, s as int),
    ensures
        r@ =~= spec_output_id(
            prefix@, y as int, mo as int, d as int, h as int, mi as int, s as int),
{
    let year: String = if y < 0 {
        proof {
            reveal_strlit("-");
        }
        String::from_str("-").concat(pad4((-(y as i64)) as u64).as_str())
    } else {
        pad4(y as u64)
    };
    let v = crate::version();
    let vtag = replace_dots(v.as_str());
    let r = String::from_str(prefix)
        .concat("-")
        .concat(year.as_str())
        .concat("-")
        .concat(pad2(mo as u64).as_str())
        .concat("-")
        .concat(pad2(d as u64).as_str())
        .concat("_")
        .concat(pad2(h as u64).as_str())
        .concat(pad2(mi as u64).as_str())
        .concat(pad2(s as u64).as_str())
        .concat("_v")
        .concat(vtag.as_str());
    r
}

/// An id for simulation output, based on prefix, startup time and version.
fn create_output_id(prefix: &str) -> (r: String)
    ensures
        is_output_id(r@, prefix@),
{
    let (y, mo, d, h, mi, s) = now_calendar();
    let r = format_output_id(prefix, y, mo, d, h, mi, s);
    proof {
        assert(calendar_in_range(
            y as int, mo as int, d as int, h as int, mi as int, s as int)
            && r@ == spec_output_id(
                prefix@, y as int, mo as int, d as int, h as int, mi as int, s as int));
    }
    r
}

/// A common path which all files written to disk share; swapping the file
/// extension tells the outputs apart.
#[derive(Clone, Debug)]
pub struct OutputPath {
    path: String,
    id: String,
}

impl OutputPath {
    /// The stored path ends in the placeholder extension.
    pub closed spec fn wf(self) -> bool {
        self.path@.len() >= 4 && self.path@.subrange(
            self.path@.len() - 4, self.path@.len() as int) =~= ".ext"@
    }

    /// The full stored path, placeholder extension included.
    pub closed spec fn spec_path(self) -> Seq<char> {
        self.path@
    }

    /// The id of the run.
    pub closed spec fn spec_id(self) -> Seq<char> {
        self.id@
    }

    /// Builds the common path for a run: a fresh id from `prefix`, clock and
    /// version names both the directory under `root` and the files in it.
    pub fn new(root: &str, prefix: &str) -> (r: OutputPath)
        ensures
            r.wf(),
            is_output_id(r.spec_id(), prefix@),
            r.spec_path() == spec_path(root@, r.spec_id()),
    {
        let id = create_output_id(prefix);
        proof {
            reveal_strlit("/");
            reveal_strlit(".ext");
        }
        let path = String::from_str(root)
            .concat("/")
            .concat(id.as_str())
            .concat("/")
            .concat(id.as_str())
            .concat(".ext");
        proof {
            assert(path@.subrange(path@.len() - 4, path@.len() as int) =~= ".ext"@);
        }
        OutputPath { path, id }
    }

    /// The stored path with the placeholder swapped for `ext`: the file of
    /// one output channel.
    pub fn with_extension(&self, ext: &str) -> (r: String)
        requires
            self.wf(),
        ensures
            r@ == self.spec_path().subrange(0, self.spec_path().len() - 3) + ext@,
    {
        let n = self.path.as_str().unicode_len();
        let stem = self.path.as_str().substring_char(0, n - 3);
        String::from_str(stem).concat(ext)
    }

    /// The id of the run.
    pub fn get_id(&self) -> (r: &str)
        ensures
            r@ == self.spec_id(),
    {
        self.id.as_str()
    }
}

} // verus!
