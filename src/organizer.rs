use vstd::prelude::*;
use vstd::string::*;

use crate::exif_meta::{
    exif_container_readable, exif_date_time_field, glob_matches_ignoring_case, parse_date_time,
    read_date_time,
};

verus! {

/// Why a run cannot start.
#[derive(Debug, Clone, Copy, PartialEq, Eq, Structural)]
pub enum DirError {
    /// The input directory does not exist.
    InputMissing,
    /// The output directory does not exist.
    OutputMissing,
}

/// Decides whether a run may start, given whether the input and the output
/// directory exist. The input directory is reported first.
pub fn check_dirs(input_exists: bool, output_exists: bool) -> (r: Result<(), DirError>)
    ensures
        r == (if !input_exists {
            Err(DirError::InputMissing)
        } else if !output_exists {
            Err(DirError::OutputMissing)
        } else {
            Ok(())
        }),
{
    if !input_exists {
        return Err(DirError::InputMissing);
    }
    if !output_exists {
        return Err(DirError::OutputMissing);
    }
    Ok(())
}


// ---- dates in Exif ASCII values ----

/// An ASCII decimal digit.
pub open spec fn is_digit(b: u8) -> bool {
    48 <= b <= 57
}

/// What the digits of `s` spell, most significant first.
pub open spec fn digits_value(s: Seq<u8>) -> nat
    decreases s.len(),
{
    if s.len() == 0 {
        0
    } else {
        digits_value(s.drop_last()) * 10 + (s.last() - 48) as nat
    }
}

/// An Exif date-time value `YYYY:MM:DD HH:MM:SS`: at least 19 bytes, the
/// delimiters in place, and digits everywhere else among the first 19.
pub open spec fn date_time_accepted(s: Seq<u8>) -> bool {
    &&& s.len() >= 19
    &&& s[4] == 58 && s[7] == 58 && s[10] == 32 && s[13] == 58 && s[16] == 58
    &&& forall|i: int|
        0 <= i < 19 && i != 4 && i != 7 && i != 10 && i != 13 && i != 16 ==> is_digit(#[trigger] s[i])
}

/// The year and month of a capture timestamp, as the Exif value spells them.
#[derive(Debug, Clone, Copy, PartialEq, Eq, Structural)]
pub struct CaptureDate {
    pub year: u16,
    pub month: u8,
}

/// The capture date that an accepted date-time value spells.
pub open spec fn date_of(s: Seq<u8>) -> CaptureDate {
    CaptureDate {
        year: digits_value(s.subrange(0, 4)) as u16,
        month: digits_value(s.subrange(5, 7)) as u8,
    }
}

/// The value of the `DateTime` tag of a readable Exif container.
#[derive(Debug)]
pub enum DateValue {
    /// The tag is absent.
    Missing,
    /// The tag holds a value of another type than ASCII.
    NotAscii,
    /// The tag holds ASCII strings, given as their bytes.
    Ascii(Vec<Vec<u8>>),
}

/// Where a file goes, decided from its metadata.
#[derive(Debug, Clone, Copy, PartialEq, Eq, Structural)]
pub enum Placement {
    /// Into the folder of its capture year and month.
    Dated(CaptureDate),
    /// Into the fallback folder: the file holds no readable Exif container.
    NoExif,
    /// Nowhere: the `DateTime` tag is absent, not a non-empty ASCII value,
    /// or does not parse.
    Skipped,
}

/// A `DateTime` value as plain data: `None` when the tag is absent,
/// `Some(None)` when its value is not ASCII, else the bytes of its strings.
pub open spec fn date_value_view(v: DateValue) -> Option<Option<Seq<Seq<u8>>>> {
    match v {
        DateValue::Missing => None,
        DateValue::NotAscii => Some(None),
        DateValue::Ascii(strs) => Some(Some(strs@.map_values(|b: Vec<u8>| b@))),
    }
}

/// The placement that a readable container's `DateTime` field calls for:
/// dated when its first ASCII string is a date-time, else skipped.
pub open spec fn field_placement(f: Option<Option<Seq<Seq<u8>>>>) -> Placement {
    match f {
        Some(Some(strs)) => {
            if strs.len() > 0 && date_time_accepted(strs[0]) {
                Placement::Dated(date_of(strs[0]))
            } else {
                Placement::Skipped
            }
        },
        _ => Placement::Skipped,
    }
}

/// Ten to the power `n`.
pub open spec fn pow10(n: nat) -> nat
    decreases n,
{
    if n == 0 {
        1
    } else {
        10 * pow10((n - 1) as nat)
    }
}

proof fn lemma_digits_value_bound(s: Seq<u8>)
    requires
        forall|i: int| 0 <= i < s.len() ==> is_digit(#[trigger] s[i]),
    ensures
        digits_value(s) < pow10(s.len()),
    decreases s.len(),
{
    if s.len() > 0 {
        lemma_digits_value_bound(s.drop_last());
    }
}

/// The year and month digits of an accepted date-time value are digits, and
/// what they spell fits a `u16` and a `u8`.
proof fn lemma_date_fields_fit(s: Seq<u8>)
    requires
        date_time_accepted(s),
    ensures
        forall|i: int| 0 <= i < 4 ==> is_digit(#[trigger] s.subrange(0, 4)[i]),
        forall|i: int| 0 <= i < 2 ==> is_digit(#[trigger] s.subrange(5, 7)[i]),
        digits_value(s.subrange(0, 4)) < 10000,
        digits_value(s.subrange(5, 7)) < 100,
{
    assert forall|i: int| 0 <= i < 4 implies is_digit(#[trigger] s.subrange(0, 4)[i]) by {
        assert(s.subrange(0, 4)[i] == s[i]);
    }
    assert forall|i: int| 0 <= i < 2 implies is_digit(#[trigger] s.subrange(5, 7)[i]) by {
        assert(s.subrange(5, 7)[i] == s[i + 5]);
    }
    lemma_digits_value_bound(s.subrange(0, 4));
    lemma_digits_value_bound(s.subrange(5, 7));
    reveal_with_fuel(pow10, 5);
}

/// Decides where a file goes from the `DateTime` value of its readable Exif
/// container: the first ASCII string is parsed as a date-time.
pub fn place_date_value(v: &DateValue) -> (r: Placement)
    ensures
        r == field_placement(date_value_view(*v)),
{
    match v {
        DateValue::Ascii(strs) => {
            if strs.len() == 0 {
                return Placement::Skipped;
            }
            assert(strs@.map_values(|b: Vec<u8>| b@)[0] == strs@[0]@);
            match parse_date_time(strs[0].as_slice()) {
                Some(d) => {
                    proof {
                        lemma_date_fields_fit(strs@[0]@);
                    }
                    Placement::Dated(d)
                },
                None => Placement::Skipped,
            }
        },
        _ => Placement::Skipped,
    }
}

/// Decides where a file goes from its bytes: to the fallback folder when they
/// hold no readable Exif container, else as its `DateTime` field calls for.
pub fn classify(bytes: &Vec<u8>) -> (r: Placement)
    ensures
        !exif_container_readable(bytes@) ==> r == Placement::NoExif,
        exif_container_readable(bytes@) ==> r == field_placement(exif_date_time_field(bytes@)),
{
    match read_date_time(bytes) {
        Some(v) => place_date_value(&v),
        None => Placement::NoExif,
    }
}

// ---- destination paths ----

/// The character of a decimal digit.
pub open spec fn digit_char(d: nat) -> char {
    if d == 0 { '0' }
    else if d == 1 { '1' }
    else if d == 2 { '2' }
    else if d == 3 { '3' }
    else if d == 4 { '4' }
    else if d == 5 { '5' }
    else if d == 6 { '6' }
    else if d == 7 { '7' }
    else if d == 8 { '8' }
    else { '9' }
}

/// The decimal digits of `n`, zero-padded on the left to at least `width`.
pub open spec fn padded(n: nat, width: nat) -> Seq<char>
    decreases n + width,
{
    if n < 10 && width <= 1 {
        seq![digit_char(n)]
    } else {
        padded(n / 10, if width > 0 { (width - 1) as nat } else { 0 }).push(digit_char(n % 10))
    }
}

/// `{out}/{year}/{month}/{name}`, the year in at least four digits and the
/// month in at least two.
pub open spec fn dated_path(out: Seq<char>, d: CaptureDate, name: Seq<char>) -> Seq<char> {
    out + seq!['/'] + padded(d.year as nat, 4) + seq!['/'] + padded(d.month as nat, 2) + seq!['/']
        + name
}

/// The name of the fallback folder.
pub open spec fn fallback_segment() -> Seq<char> {
    seq!['n', 'o', '_', 'e', 'x', 'i', 'f']
}

/// `{out}/no_exif/{name}`.
pub open spec fn fallback_path(out: Seq<char>, name: Seq<char>) -> Seq<char> {
    out + seq!['/'] + fallback_segment() + seq!['/'] + name
}

/// The text of an optional path.
pub open spec fn path_view(o: Option<String>) -> Option<Seq<char>> {
    match o {
        Some(s) => Some(s@),
        None => None,
    }
}

/// Where a file named `name` with this placement is copied to, if anywhere.
pub open spec fn destination_of(out: Seq<char>, name: Seq<char>, p: Placement) -> Option<Seq<char>> {
    match p {
        Placement::Dated(d) => Some(dated_path(out, d, name)),
        Placement::NoExif => Some(fallback_path(out, name)),
        Placement::Skipped => None,
    }
}

fn digit_str(d: u16) -> (r: &'static str)
    requires
        d < 10,
    ensures
        r@ == seq![digit_char(d as nat)],
{
    if d == 0 {
        proof { reveal_strlit("0"); }
        "0"
    } else if d == 1 {
        proof { reveal_strlit("1"); }
        "1"
    } else if d == 2 {
        proof { reveal_strlit("2"); }
        "2"
    } else if d == 3 {
        proof { reveal_strlit("3"); }
        "3"
    } else if d == 4 {
        proof { reveal_strlit("4"); }
        "4"
    } else if d == 5 {
        proof { reveal_strlit("5"); }
        "5"
    } else if d == 6 {
        proof { reveal_strlit("6"); }
        "6"
    } else if d == 7 {
        proof { reveal_strlit("7"); }
        "7"
    } else if d == 8 {
        proof { reveal_strlit("8"); }
        "8"
    } else {
        proof { reveal_strlit("9"); }
        "9"
    }
}

fn push_padded(s: &mut String, n: u16, width: usize)
    ensures
        final(s)@ == old(s)@ + padded(n as nat, width as nat),
    decreases n + width,
{
    if n < 10 && width <= 1 {
        s.append(digit_str(n));
    } else {
        let rest: usize = if width > 0 { width - 1 } else { 0 };
        push_padded(s, n / 10, rest);
        s.append(digit_str(n % 10));
        assert(final(s)@ =~= old(s)@ + padded(n as nat, width as nat));
    }
}

/// Builds the path that a file named `name` with this placement is copied
/// to under `output_dir`, or `None` for a skipped file.
pub fn destination(output_dir: &str, name: &str, placement: &Placement) -> (r: Option<String>)
    ensures
        path_view(r) == destination_of(output_dir@, name@, *placement),
{
    match placement {
        Placement::Dated(d) => {
            let mut s = String::from_str(output_dir);
            proof { reveal_strlit("/"); }
            s.append("/");
            push_padded(&mut s, d.year, 4);
            s.append("/");
            push_padded(&mut s, d.month as u16, 2);
            s.append("/");
            s.append(name);
            assert(s@ =~= dated_path(output_dir@, *d, name@));
            Some(s)
        },
        Placement::NoExif => {
            let mut s = String::from_str(output_dir);
            proof { reveal_strlit("/no_exif/"); }
            s.append("/no_exif/");
            s.append(name);
            assert(s@ =~= fallback_path(output_dir@, name@));
            Some(s)
        },
        Placement::Skipped => None,
    }
}


// ---- selecting and planning ----

/// A name that the pattern `*.jpg` matches without regard to ASCII case.
pub open spec fn is_jpg_name_spec(n: Seq<char>) -> bool {
    &&& n.len() >= 4
    &&& n[n.len() - 4] == '.'
    &&& (n[n.len() - 3] == 'j' || n[n.len() - 3] == 'J')
    &&& (n[n.len() - 2] == 'p' || n[n.len() - 2] == 'P')
    &&& (n[n.len() - 1] == 'g' || n[n.len() - 1] == 'G')
}

/// The pattern that selects the files to sort.
pub open spec fn jpg_pattern() -> Seq<char> {
    seq!['*', '.', 'j', 'p', 'g']
}

/// Whether a file name matches `*.jpg`, in any ASCII case.
pub fn is_jpg_name(name: &str) -> (r: bool)
    ensures
        r == is_jpg_name_spec(name@),
{
    proof {
        reveal_strlit("*.jpg");
        assert("*.jpg"@ =~= jpg_pattern());
    }
    glob_matches_ignoring_case("*.jpg", name)
}

/// Where a file found under the input directory is copied to: a file that
/// is not a `*.jpg` is never copied.
pub open spec fn planned(out: Seq<char>, name: Seq<char>, p: Placement) -> Option<Seq<char>> {
    if is_jpg_name_spec(name) {
        destination_of(out, name, p)
    } else {
        None
    }
}

/// Plans the copy of one file found under the input directory.
pub fn plan_file(output_dir: &str, name: &str, placement: &Placement) -> (r: Option<String>)
    ensures
        path_view(r) == planned(output_dir@, name@, *placement),
{
    if is_jpg_name(name) {
        destination(output_dir, name, placement)
    } else {
        None
    }
}

/// A file found under the input directory: its name and where its metadata
/// says it goes.
#[derive(Debug, Clone)]
pub struct SourceEntry {
    pub name: String,
    pub placement: Placement,
}

/// The plan for a run over these entries: one outcome for each, in order.
pub open spec fn plan_of(out: Seq<char>, entries: Seq<SourceEntry>) -> Seq<Option<Seq<char>>> {
    Seq::new(entries.len(), |i: int| planned(out, entries[i].name@, entries[i].placement))
}

/// Plans a run: for each entry, in order, where it is copied to, if anywhere.
pub fn plan_copies(output_dir: &str, entries: &Vec<SourceEntry>) -> (r: Vec<Option<String>>)
    ensures
        r@.len() == entries@.len(),
        forall|i: int| 0 <= i < r@.len() ==> path_view(#[trigger] r@[i]) == plan_of(output_dir@, entries@)[i],
        forall|i: int| 0 <= i < r@.len() && !is_jpg_name_spec(entries@[i].name@) ==> #[trigger] r@[i] is None,
{
    let mut r: Vec<Option<String>> = Vec::new();
    let mut i: usize = 0;
    while i < entries.len()
        invariant
            i <= entries@.len(),
            r@.len() == i,
            forall|k: int| 0 <= k < i ==> path_view(#[trigger] r@[k]) == plan_of(output_dir@, entries@)[k],
        decreases entries@.len() - i,
    {
        let e = &entries[i];
        r.push(plan_file(output_dir, e.name.as_str(), &e.placement));
        i = i + 1;
    }
    r
}

// ---- the output tree ----

/// The output tree after copying, in order, each planned file: `dests[i]`
/// receives `contents[i]`, replacing what stood there.
pub open spec fn tree_after(
    tree: Map<Seq<char>, Seq<u8>>,
    dests: Seq<Option<Seq<char>>>,
    contents: Seq<Seq<u8>>,
) -> Map<Seq<char>, Seq<u8>>
    decreases dests.len(),
{
    if dests.len() == 0 || contents.len() == 0 {
        tree
    } else {
        let before = tree_after(tree, dests.drop_last(), contents.drop_last());
        match dests.last() {
            Some(p) => before.insert(p, contents.last()),
            None => before,
        }
    }
}

proof fn lemma_tree_after_overlay(
    tree: Map<Seq<char>, Seq<u8>>,
    dests: Seq<Option<Seq<char>>>,
    contents: Seq<Seq<u8>>,
)
    ensures
        tree_after(tree, dests, contents) == tree.union_prefer_right(
            tree_after(Map::empty(), dests, contents),
        ),
    decreases dests.len(),
{
    if dests.len() == 0 || contents.len() == 0 {
        assert(tree.union_prefer_right(Map::empty()) =~= tree);
    } else {
        lemma_tree_after_overlay(tree, dests.drop_last(), contents.drop_last());
        lemma_tree_after_overlay(Map::empty(), dests.drop_last(), contents.drop_last());
        let w = tree_after(Map::<Seq<char>, Seq<u8>>::empty(), dests.drop_last(), contents.drop_last());
        assert(Map::<Seq<char>, Seq<u8>>::empty().union_prefer_right(w) =~= w);
        match dests.last() {
            Some(p) => {
                assert(tree.union_prefer_right(w).insert(p, contents.last())
                    =~= tree.union_prefer_right(w.insert(p, contents.last())));
            },
            None => {},
        }
    }
}

/// A second run with the same plan over the same input files leaves the
/// output tree as the first run left it: each copy replaces its destination
/// with the same bytes.
pub proof fn lemma_second_run_same_tree(
    tree: Map<Seq<char>, Seq<u8>>,
    out: Seq<char>,
    entries: Seq<SourceEntry>,
    contents: Seq<Seq<u8>>,
)
    requires
        contents.len() == entries.len(),
    ensures
        tree_after(tree_after(tree, plan_of(out, entries), contents), plan_of(out, entries), contents)
            == tree_after(tree, plan_of(out, entries), contents),
{
    let dests = plan_of(out, entries);
    let w = tree_after(Map::<Seq<char>, Seq<u8>>::empty(), dests, contents);
    lemma_tree_after_overlay(tree, dests, contents);
    lemma_tree_after_overlay(tree_after(tree, dests, contents), dests, contents);
    assert(tree.union_prefer_right(w).union_prefer_right(w) =~= tree.union_prefer_right(w));
}

/// Every entry of a run is planned exactly once: the plan holds one outcome
/// per entry, and the outcome of each depends on that entry alone.
pub proof fn lemma_each_entry_planned_once(out: Seq<char>, entries: Seq<SourceEntry>, i: int)
    requires
        0 <= i < entries.len(),
    ensures
        plan_of(out, entries).len() == entries.len(),
        plan_of(out, entries)[i] == plan_of(out, seq![entries[i]])[0],
{
}

/// A file whose name does not end in `.jpg`, in any case, is never copied,
/// whatever its metadata.
pub proof fn lemma_non_jpg_never_copied(out: Seq<char>, entries: Seq<SourceEntry>, i: int)
    requires
        0 <= i < entries.len(),
        !is_jpg_name_spec(entries[i].name@),
    ensures
        plan_of(out, entries)[i] is None,
{
}


/// The characters that ASCII bytes spell.
pub open spec fn ascii_chars(s: Seq<u8>) -> Seq<char> {
    s.map_values(|b: u8| b as char)
}

proof fn lemma_padded_digits(s: Seq<u8>)
    requires
        s.len() > 0,
        forall|i: int| 0 <= i < s.len() ==> is_digit(#[trigger] s[i]),
    ensures
        padded(digits_value(s), s.len()) == ascii_chars(s),
    decreases s.len(),
{
    let a = digits_value(s.drop_last());
    let d = (s.last() - 48) as nat;
    assert(is_digit(s[s.len() - 1]));
    assert(digit_char(d) == s.last() as char);
    if s.len() == 1 {
        assert(s.drop_last().len() == 0);
        assert(ascii_chars(s) =~= seq![s.last() as char]);
    } else {
        assert((a * 10 + d) / 10 == a && (a * 10 + d) % 10 == d) by (nonlinear_arith)
            requires
                d < 10,
        ;
        lemma_padded_digits(s.drop_last());
        assert(ascii_chars(s) =~= ascii_chars(s.drop_last()).push(s.last() as char));
    }
}

/// A dated destination spells the year and month with the very digits of the
/// Exif date-time value: `2021:06:15 10:00:00` goes to `{out}/2021/06/{name}`.
pub proof fn lemma_dated_path_keeps_digits(s: Seq<u8>, out: Seq<char>, name: Seq<char>)
    requires
        date_time_accepted(s),
    ensures
        dated_path(out, date_of(s), name) == out + seq!['/'] + ascii_chars(s.subrange(0, 4)) + seq!['/']
            + ascii_chars(s.subrange(5, 7)) + seq!['/'] + name,
{
    let y = s.subrange(0, 4);
    let m = s.subrange(5, 7);
    lemma_date_fields_fit(s);
    lemma_padded_digits(y);
    lemma_padded_digits(m);
}

} // verus!
