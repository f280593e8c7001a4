//! Readers and parsers of the cgroup interface files.

use vstd::prelude::*;

use crate::cgroup::error::{CgroupError, IoError, IoErrorKind};
use crate::cgroup::fs::{CgroupFs, join_path, path_join};
use crate::text::{chars_of, char_is_whitespace, find_char, index_of, lemma_index_of, line_ranges, lines, parse_u64, parse_u64_range, pieces, ranges_within, starts_with, string_of_range, trim, trim_range, word_ranges, words, chars_equal};

verus! {

/// The key and the value of a `key value` line: the key is what precedes
/// the first space, the value what follows it, trimmed and read as a `u64`.
pub open spec fn keyed_line(line: Seq<char>) -> Option<(Seq<char>, u64)> {
    let k = index_of(line, ' ');
    if k < line.len() {
        match parse_u64(trim(line.subrange(k + 1, line.len() as int))) {
            Some(v) => Some((line.subrange(0, k), v)),
            None => None,
        }
    } else {
        None
    }
}

/// The entries of the lines that parse as `key value`, in order.
pub open spec fn keyed_entries(ls: Seq<Seq<char>>) -> Seq<(Seq<char>, u64)>
    decreases ls.len(),
{
    if ls.len() == 0 {
        seq![]
    } else {
        let e = keyed_entries(ls.drop_last());
        match keyed_line(ls.last()) {
            Some(p) => e.push(p),
            None => e,
        }
    }
}

/// The entries of a flat keyed file.
pub open spec fn flat_keyed(text: Seq<char>) -> Seq<(Seq<char>, u64)> {
    keyed_entries(lines(text))
}

/// Entries seen through the views of their keys.
pub open spec fn entries_view(v: Seq<(String, u64)>) -> Seq<(Seq<char>, u64)> {
    v.map_values(|p: (String, u64)| (p.0@, p.1))
}

/// The value of `key`: that of its last entry, as a map built from the
/// entries in order keeps it.
pub open spec fn keyed_lookup(e: Seq<(Seq<char>, u64)>, key: Seq<char>) -> Option<u64>
    decreases e.len(),
{
    if e.len() == 0 {
        None
    } else if e.last().0 == key {
        Some(e.last().1)
    } else {
        keyed_lookup(e.drop_last(), key)
    }
}

proof fn lemma_keyed_line_range(v: Seq<char>, a: int, b: int, p: int, x: int, y: int)
    requires
        0 <= a <= p < b <= v.len(),
        v[p] == ' ',
        forall|j: int| a <= j < p ==> v[j] != ' ',
        p + 1 <= x <= y <= b,
        v.subrange(x, y) == trim(v.subrange(p + 1, b)),
    ensures
        keyed_line(v.subrange(a, b)) == match parse_u64(v.subrange(x, y)) {
            Some(val) => Some((v.subrange(a, p), val)),
            None => None,
        },
{
    let line = v.subrange(a, b);
    lemma_index_of(line, ' ', p - a);
    assert(line.subrange(p - a + 1, line.len() as int) =~= v.subrange(p + 1, b));
    assert(line.subrange(0, p - a) =~= v.subrange(a, p));
}

/// Parses a flat keyed file (`key value` per line); lines that do not
/// parse are ignored.
pub fn parse_flat_keyed(text: &str) -> (r: Vec<(String, u64)>)
    ensures
        entries_view(r@) == flat_keyed(text@),
{
    let v = chars_of(text);
    let lr = line_ranges(&v);
    let ghost ls = pieces(v@, lr@);
    let mut out: Vec<(String, u64)> = Vec::new();
    let mut k: usize = 0;
    while k < lr.len()
        invariant
            0 <= k <= lr@.len(),
            ranges_within(lr@, v@.len() as int),
            ls == pieces(v@, lr@),
            ls == lines(text@),
            v@ == text@,
            entries_view(out@) == keyed_entries(ls.subrange(0, k as int)),
        decreases lr@.len() - k,
    {
        let (a, b) = lr[k];
        let ghost old_out = out@;
        proof {
            assert(lr@[k as int].0 <= lr@[k as int].1 <= v@.len());
            assert(ls.subrange(0, k + 1).drop_last() =~= ls.subrange(0, k as int));
            assert(ls.subrange(0, k + 1).last() == v@.subrange(a as int, b as int));
        }
        match find_char(&v, a, b, ' ') {
            Some(p) => {
                let (x, y) = trim_range(&v, p + 1, b);
                proof {
                    lemma_keyed_line_range(v@, a as int, b as int, p as int, x as int, y as int);
                }
                match parse_u64_range(&v, x, y) {
                    Some(val) => {
                        let key = string_of_range(&v, a, p);
                        out.push((key, val));
                        proof {
                            assert(entries_view(out@) =~= entries_view(old_out).push(
                                (v@.subrange(a as int, p as int), val),
                            ));
                        }
                    },
                    None => {},
                }
            },
            None => {
                proof {
                    let line = v@.subrange(a as int, b as int);
                    lemma_index_of(line, ' ', line.len() as int);
                }
            },
        }
        k = k + 1;
    }
    proof {
        assert(ls.subrange(0, lr@.len() as int) =~= ls);
    }
    out
}

/// The value of `key` among parsed entries.
pub fn keyed_get(entries: &Vec<(String, u64)>, key: &str) -> (r: Option<u64>)
    ensures
        r == keyed_lookup(entries_view(entries@), key@),
{
    let kc = chars_of(key);
    let mut i = entries.len();
    proof {
        assert(entries@.subrange(0, i as int) =~= entries@);
    }
    while i > 0
        invariant
            0 <= i <= entries@.len(),
            kc@ == key@,
            keyed_lookup(entries_view(entries@), key@) == keyed_lookup(
                entries_view(entries@.subrange(0, i as int)),
                key@,
            ),
        decreases i,
    {
        let ghost sub = entries@.subrange(0, i as int);
        proof {
            assert(entries_view(sub).drop_last() =~= entries_view(
                entries@.subrange(0, i - 1),
            ));
            assert(entries_view(sub).last() == (entries@[i - 1].0@, entries@[i - 1].1));
        }
        let ec = chars_of(entries[i - 1].0.as_str());
        if chars_equal(&ec, &kc) {
            return Some(entries[i - 1].1);
        }
        i = i - 1;
    }
    None
}

/// One field of an `io.stat` line counted into the read and written totals:
/// `rbytes=N` adds to the read bytes, `wbytes=N` to the written ones; a
/// field whose number does not parse is ignored.
pub open spec fn io_field(acc: (int, bool, int, bool), f: Seq<char>) -> (int, bool, int, bool) {
    let rp = seq!['r', 'b', 'y', 't', 'e', 's', '='];
    let wp = seq!['w', 'b', 'y', 't', 'e', 's', '='];
    if f.len() >= 7 && f.subrange(0, 7) == rp {
        match parse_u64(f.subrange(7, f.len() as int)) {
            Some(v) => (acc.0 + v, true, acc.2, acc.3),
            None => acc,
        }
    } else if f.len() >= 7 && f.subrange(0, 7) == wp {
        match parse_u64(f.subrange(7, f.len() as int)) {
            Some(v) => (acc.0, acc.1, acc.2 + v, true),
            None => acc,
        }
    } else {
        acc
    }
}

/// The totals after a sequence of fields.
pub open spec fn io_fields(acc: (int, bool, int, bool), fs: Seq<Seq<char>>) -> (
    int,
    bool,
    int,
    bool,
)
    decreases fs.len(),
{
    if fs.len() == 0 {
        acc
    } else {
        io_field(io_fields(acc, fs.drop_last()), fs.last())
    }
}

/// The totals after a sequence of `io.stat` lines, whose first word (the
/// device) is skipped.
pub open spec fn io_lines(ls: Seq<Seq<char>>) -> (int, bool, int, bool)
    decreases ls.len(),
{
    if ls.len() == 0 {
        (0, false, 0, false)
    } else {
        let w = words(ls.last());
        io_fields(
            io_lines(ls.drop_last()),
            if w.len() > 0 {
                w.drop_first()
            } else {
                w
            },
        )
    }
}

/// The read and written totals of an `io.stat` content, `None` where no
/// device reported the counter.
pub open spec fn io_stat(text: Seq<char>) -> (Option<int>, Option<int>) {
    let t = io_lines(lines(text));
    (
        if t.1 {
            Some(t.0)
        } else {
            None
        },
        if t.3 {
            Some(t.2)
        } else {
            None
        },
    )
}

/// Whether the totals of an `io.stat` content fit in a `u64`.
pub open spec fn io_stat_fits(text: Seq<char>) -> bool {
    let t = io_lines(lines(text));
    t.0 <= u64::MAX && t.2 <= u64::MAX
}

proof fn lemma_io_field_grows(acc: (int, bool, int, bool), f: Seq<char>)
    ensures
        io_field(acc, f).0 >= acc.0,
        io_field(acc, f).2 >= acc.2,
{
}

proof fn lemma_io_fields_grow(acc: (int, bool, int, bool), fs: Seq<Seq<char>>)
    ensures
        io_fields(acc, fs).0 >= acc.0,
        io_fields(acc, fs).2 >= acc.2,
    decreases fs.len(),
{
    if fs.len() > 0 {
        lemma_io_fields_grow(acc, fs.drop_last());
        lemma_io_field_grows(io_fields(acc, fs.drop_last()), fs.last());
    }
}

proof fn lemma_io_lines_grow(ls: Seq<Seq<char>>, k: int)
    requires
        0 <= k <= ls.len(),
    ensures
        io_lines(ls.subrange(0, k)).0 <= io_lines(ls).0,
        io_lines(ls.subrange(0, k)).2 <= io_lines(ls).2,
    decreases ls.len() - k,
{
    if k < ls.len() {
        lemma_io_lines_grow(ls, k + 1);
        let s = ls.subrange(0, k + 1);
        assert(s.drop_last() =~= ls.subrange(0, k));
        let w = words(s.last());
        lemma_io_fields_grow(
            io_lines(s.drop_last()),
            if w.len() > 0 {
                w.drop_first()
            } else {
                w
            },
        );
    } else {
        assert(ls.subrange(0, k) =~= ls);
    }
}

proof fn lemma_io_fields_prefix_grows(acc: (int, bool, int, bool), fs: Seq<Seq<char>>, j: int)
    requires
        0 <= j <= fs.len(),
    ensures
        io_fields(acc, fs.subrange(0, j)).0 <= io_fields(acc, fs).0,
        io_fields(acc, fs.subrange(0, j)).2 <= io_fields(acc, fs).2,
    decreases fs.len() - j,
{
    if j < fs.len() {
        lemma_io_fields_prefix_grows(acc, fs, j + 1);
        let s = fs.subrange(0, j + 1);
        assert(s.drop_last() =~= fs.subrange(0, j));
        lemma_io_field_grows(io_fields(acc, s.drop_last()), s.last());
    } else {
        assert(fs.subrange(0, j) =~= fs);
    }
}

/// Counts the fields of one `io.stat` line (all its words but the first)
/// into the totals; `None` when a total would not fit in a `u64`.
fn io_line_totals(v: &Vec<char>, a: usize, b: usize, acc: (u64, bool, u64, bool)) -> (r: Option<
    (u64, bool, u64, bool),
>)
    requires
        a <= b <= v@.len(),
    ensures
        ({
            let w = words(v@.subrange(a as int, b as int));
            let t = io_fields(
                (acc.0 as int, acc.1, acc.2 as int, acc.3),
                if w.len() > 0 {
                    w.drop_first()
                } else {
                    w
                },
            );
            match r {
                Some(x) => x.0 as int == t.0 && x.1 == t.1 && x.2 as int == t.2 && x.3 == t.3,
                None => t.0 > u64::MAX || t.2 > u64::MAX,
            }
        }),
{
    let wr = word_ranges(v, a, b);
    let ghost w = words(v@.subrange(a as int, b as int));
    let ghost fs = if w.len() > 0 {
        w.drop_first()
    } else {
        w
    };
    let ghost acc_int = (acc.0 as int, acc.1, acc.2 as int, acc.3);
    let rp = vec!['r', 'b', 'y', 't', 'e', 's', '='];
    let wp = vec!['w', 'b', 'y', 't', 'e', 's', '='];
    let mut t = acc;
    if wr.len() == 0 {
        return Some(t);
    }
    let mut k: usize = 1;
    proof {
        assert(fs.subrange(0, 0) =~= Seq::<Seq<char>>::empty());
    }
    while k < wr.len()
        invariant
            1 <= k <= wr@.len(),
            rp@ == seq!['r', 'b', 'y', 't', 'e', 's', '='],
            wp@ == seq!['w', 'b', 'y', 't', 'e', 's', '='],
            ranges_within(wr@, v@.len() as int),
            pieces(v@, wr@) == w,
            w == words(v@.subrange(a as int, b as int)),
            acc_int == (acc.0 as int, acc.1, acc.2 as int, acc.3),
            w.len() > 0,
            fs == w.drop_first(),
            t.0 as int == io_fields(acc_int, fs.subrange(0, k - 1)).0,
            t.1 == io_fields(acc_int, fs.subrange(0, k - 1)).1,
            t.2 as int == io_fields(acc_int, fs.subrange(0, k - 1)).2,
            t.3 == io_fields(acc_int, fs.subrange(0, k - 1)).3,
        decreases wr@.len() - k,
    {
        let (x, y) = wr[k];
        proof {
            assert(wr@[k as int].0 <= wr@[k as int].1 <= v@.len());
            assert(fs.subrange(0, k as int).drop_last() =~= fs.subrange(0, k - 1));
            assert(fs.subrange(0, k as int).last() == v@.subrange(x as int, y as int));
        }
        let ghost f = v@.subrange(x as int, y as int);
        if starts_with(v, x, y, &rp) {
            proof {
                assert(f.subrange(0, 7) =~= v@.subrange(x as int, x + 7));
                assert(f.subrange(7, f.len() as int) =~= v@.subrange(x + 7, y as int));
            }
            match parse_u64_range(v, x + 7, y) {
                Some(val) => match t.0.checked_add(val) {
                    Some(n) => {
                        t = (n, true, t.2, t.3);
                    },
                    None => {
                        proof {
                            lemma_io_fields_prefix_grows(acc_int, fs, k as int);
                            assert(io_fields(acc_int, fs.subrange(0, k as int)) == io_field(
                                io_fields(acc_int, fs.subrange(0, k - 1)),
                                f,
                            ));
                            assert(io_fields(acc_int, fs.subrange(0, k as int)).0 == t.0 + val);
                            assert(io_fields(acc_int, fs).0 > u64::MAX);
                        }
                        return None;
                    },
                },
                None => {},
            }
        } else if starts_with(v, x, y, &wp) {
            proof {
                assert(f.subrange(0, 7) =~= v@.subrange(x as int, x + 7));
                assert(f.subrange(7, f.len() as int) =~= v@.subrange(x + 7, y as int));
                if f.len() >= 7 {
                    assert(f.subrange(0, 7) != rp@);
                }
            }
            match parse_u64_range(v, x + 7, y) {
                Some(val) => match t.2.checked_add(val) {
                    Some(n) => {
                        t = (t.0, t.1, n, true);
                    },
                    None => {
                        proof {
                            lemma_io_fields_prefix_grows(acc_int, fs, k as int);
                            assert(io_fields(acc_int, fs.subrange(0, k as int)) == io_field(
                                io_fields(acc_int, fs.subrange(0, k - 1)),
                                f,
                            ));
                            assert(io_fields(acc_int, fs.subrange(0, k as int)).2 == t.2 + val);
                            assert(io_fields(acc_int, fs).2 > u64::MAX);
                        }
                        return None;
                    },
                },
                None => {},
            }
        } else {
            proof {
                if f.len() >= 7 {
                    assert(f.subrange(0, 7) =~= v@.subrange(x as int, x + 7));
                }
            }
        }
        k = k + 1;
    }
    proof {
        assert(fs.subrange(0, wr@.len() - 1) =~= fs);
    }
    Some(t)
}

/// The totals of an `io.stat` content, `None` when one does not fit in a
/// `u64`.
pub fn io_stat_totals(text: &str) -> (r: Option<(Option<u64>, Option<u64>)>)
    ensures
        match r {
            Some(x) => io_stat_fits(text@) && opt_u64_int(x.0) == io_stat(text@).0 && opt_u64_int(
                x.1,
            ) == io_stat(text@).1,
            None => !io_stat_fits(text@),
        },
{
    let v = chars_of(text);
    let lr = line_ranges(&v);
    let ghost ls = pieces(v@, lr@);
    let mut t: (u64, bool, u64, bool) = (0, false, 0, false);
    let mut k: usize = 0;
    proof {
        assert(ls.subrange(0, 0) =~= Seq::<Seq<char>>::empty());
    }
    while k < lr.len()
        invariant
            0 <= k <= lr@.len(),
            ranges_within(lr@, v@.len() as int),
            ls == pieces(v@, lr@),
            ls == lines(text@),
            t.0 as int == io_lines(ls.subrange(0, k as int)).0,
            t.1 == io_lines(ls.subrange(0, k as int)).1,
            t.2 as int == io_lines(ls.subrange(0, k as int)).2,
            t.3 == io_lines(ls.subrange(0, k as int)).3,
        decreases lr@.len() - k,
    {
        let (a, b) = lr[k];
        proof {
            assert(lr@[k as int].0 <= lr@[k as int].1 <= v@.len());
            assert(ls.subrange(0, k + 1).drop_last() =~= ls.subrange(0, k as int));
            assert(ls.subrange(0, k + 1).last() == v@.subrange(a as int, b as int));
        }
        match io_line_totals(&v, a, b, t) {
            Some(n) => {
                t = n;
            },
            None => {
                proof {
                    lemma_io_lines_grow(ls, k + 1);
                }
                return None;
            },
        }
        k = k + 1;
    }
    proof {
        assert(ls.subrange(0, lr@.len() as int) =~= ls);
    }
    Some(
        (
            if t.1 {
                Some(t.0)
            } else {
                None
            },
            if t.3 {
                Some(t.2)
            } else {
                None
            },
        ),
    )
}

/// An optional `u64` seen as an optional integer.
pub open spec fn opt_u64_int(o: Option<u64>) -> Option<int> {
    match o {
        Some(x) => Some(x as int),
        None => None,
    }
}

/// Parses an `io.stat` content into its read and written totals.
pub fn parse_io_stat(text: &str) -> (r: (Option<u64>, Option<u64>))
    requires
        io_stat_fits(text@),
    ensures
        opt_u64_int(r.0) == io_stat(text@).0,
        opt_u64_int(r.1) == io_stat(text@).1,
{
    match io_stat_totals(text) {
        Some(x) => x,
        None => (None, None),
    }
}

/// The words of a content, as strings.
pub fn parse_words(text: &str) -> (r: Vec<String>)
    ensures
        r@.map_values(|s: String| s@) == words(text@),
{
    let v = chars_of(text);
    let len = v.len();
    let wr = word_ranges(&v, 0, len);
    proof {
        assert(v@.subrange(0, len as int) =~= v@);
    }
    let mut out: Vec<String> = Vec::new();
    let mut k: usize = 0;
    while k < wr.len()
        invariant
            0 <= k <= wr@.len(),
            ranges_within(wr@, v@.len() as int),
            pieces(v@, wr@) == words(text@),
            out@.map_values(|s: String| s@) == pieces(v@, wr@).subrange(0, k as int),
        decreases wr@.len() - k,
    {
        let (a, b) = wr[k];
        proof {
            assert(wr@[k as int].0 <= wr@[k as int].1 <= v@.len());
        }
        let ghost old_out = out@;
        out.push(string_of_range(&v, a, b));
        proof {
            assert(out@.map_values(|s: String| s@) =~= old_out.map_values(|s: String| s@).push(
                v@.subrange(a as int, b as int),
            ));
            assert(pieces(v@, wr@).subrange(0, k + 1) =~= pieces(v@, wr@).subrange(
                0,
                k as int,
            ).push(v@.subrange(a as int, b as int)));
        }
        k = k + 1;
    }
    proof {
        assert(pieces(v@, wr@).subrange(0, wr@.len() as int) =~= pieces(v@, wr@));
    }
    out
}


/// Reads a cgroup file, tagging any I/O failure with the file it happened on.
pub fn read_file<F: CgroupFs>(fs: &F, path: &str) -> (r: Result<String, CgroupError>)
    ensures
        r matches Ok(s) ==> fs.read_post(path@, Ok::<String, IoError>(s)),
        r matches Err(e) ==> e matches CgroupError::IoPath { path: p, .. } && p@ == path@,
{
    match fs.read_to_string(path) {
        Ok(s) => Ok(s),
        Err(e) => Err(CgroupError::io(path, e)),
    }
}

/// Reads the trimmed content of the file at `path` as a `u64`.
pub fn parse_u64_file(path: &str, raw: &str) -> (r: Result<u64, CgroupError>)
    ensures
        match r {
            Ok(v) => parse_u64(trim(raw@)) == Some(v),
            Err(e) => parse_u64(trim(raw@)) is None && (e matches CgroupError::Parse { path: p }
                && p@ == path@),
        },
{
    let v = chars_of(raw);
    let (x, y) = trim_range(&v, 0, v.len());
    proof {
        assert(v@.subrange(0, v@.len() as int) =~= v@);
    }
    match parse_u64_range(&v, x, y) {
        Some(n) => Ok(n),
        None => Err(CgroupError::Parse { path: path.to_owned() }),
    }
}

/// What reading the optional `u64` file at `path` gives for what the read
/// answered: nothing for a missing file, the value of its trimmed content,
/// a parse error when that is not a `u64`, and the read error otherwise.
pub open spec fn u64_file_outcome(
    path: Seq<char>,
    read: Result<String, IoError>,
    r: Result<Option<u64>, CgroupError>,
) -> bool {
    match read {
        Ok(t) => match parse_u64(trim(t@)) {
            Some(v) => r == Ok::<Option<u64>, CgroupError>(Some(v)),
            None => r matches Err(CgroupError::Parse { path: p }) && p@ == path,
        },
        Err(e) => if e.kind == IoErrorKind::NotFound {
            r == Ok::<Option<u64>, CgroupError>(None)
        } else {
            r matches Err(CgroupError::IoPath { path: p, source }) && p@ == path && source.kind
                == e.kind
        },
    }
}

/// The value of an optional `u64` file from what reading it answered.
pub fn u64_file_value(path: &str, read: Result<String, IoError>) -> (r: Result<
    Option<u64>,
    CgroupError,
>)
    ensures
        u64_file_outcome(path@, read, r),
{
    match read {
        Ok(raw) => match parse_u64_file(path, raw.as_str()) {
            Ok(v) => Ok(Some(v)),
            Err(e) => Err(e),
        },
        Err(e) => {
            if e.kind == IoErrorKind::NotFound {
                Ok(None)
            } else {
                Err(CgroupError::io(path, e))
            }
        },
    }
}

/// Reads an optional `u64` file: `None` if it does not exist.
pub fn read_u64_opt<F: CgroupFs>(fs: &F, path: &str) -> (r: Result<Option<u64>, CgroupError>)
    ensures
        exists|read: Result<String, IoError>|
            #![trigger u64_file_outcome(path@, read, r)]
            fs.read_post(path@, read) && u64_file_outcome(path@, read, r),
{
    let read = fs.read_to_string(path);
    let ghost answered = read;
    let r = u64_file_value(path, read);
    proof {
        assert(u64_file_outcome(path@, answered, r));
    }
    r
}

/// Whether `path` is a directory of a cgroup v2 hierarchy: every such
/// directory exposes a `cgroup.controllers` file.
pub fn is_cgroup_dir<F: CgroupFs>(fs: &F, path: &str) -> (r: bool)
    ensures
        fs.is_file_post(path_join(path@, "cgroup.controllers"@), r),
{
    let p = join_path(path, "cgroup.controllers");
    fs.is_file(p.as_str())
}

/// Reads a space separated list of controller names.
pub fn read_controllers<F: CgroupFs>(fs: &F, path: &str) -> (r: Result<Vec<String>, CgroupError>)
    ensures
        r matches Ok(v) ==> exists|t: String|
            #![trigger fs.read_post(path@, Ok::<String, IoError>(t))]
            fs.read_post(path@, Ok::<String, IoError>(t)) && v@.map_values(|s: String| s@) == words(t@),
        r matches Err(e) ==> e matches CgroupError::IoPath { path: p, .. } && p@ == path@,
{
    let raw = read_file(fs, path)?;
    Ok(parse_words(raw.as_str()))
}

/// Reads a flat keyed file.
pub fn read_flat_keyed_file<F: CgroupFs>(fs: &F, path: &str) -> (r: Result<
    Vec<(String, u64)>,
    CgroupError,
>)
    ensures
        r matches Ok(e) ==> exists|t: String|
            #![trigger fs.read_post(path@, Ok::<String, IoError>(t))]
            fs.read_post(path@, Ok::<String, IoError>(t)) && entries_view(e@) == flat_keyed(t@),
        r matches Err(e) ==> e matches CgroupError::IoPath { path: p, .. } && p@ == path@,
{
    let raw = read_file(fs, path)?;
    Ok(parse_flat_keyed(raw.as_str()))
}

/// Reads the read and written totals of `io.stat`. Totals that do not fit
/// in a `u64` are reported as a parse failure of the file.
pub fn read_io_stat<F: CgroupFs>(fs: &F, path: &str) -> (r: Result<
    (Option<u64>, Option<u64>),
    CgroupError,
>)
    ensures
        r matches Ok(x) ==> exists|t: String|
            #![trigger fs.read_post(path@, Ok::<String, IoError>(t))]
            fs.read_post(path@, Ok::<String, IoError>(t)) && io_stat_fits(t@) && opt_u64_int(x.0)
                == io_stat(t@).0 && opt_u64_int(x.1) == io_stat(t@).1,
        r matches Err(e) ==> (e matches CgroupError::IoPath { path: p, .. } && p@ == path@) || (
        e matches CgroupError::Parse { path: p } && p@ == path@),
{
    let raw = read_file(fs, path)?;
    match io_stat_totals(raw.as_str()) {
        Some(x) => Ok(x),
        None => Err(CgroupError::Parse { path: path.to_owned() }),
    }
}

} // verus!
