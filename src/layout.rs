//! Where things go under the root: segment directories and files, run
//! directories, lock files and archives.
use vstd::prelude::*;

use crate::calendar::{clock_text, date_text, UtcTime};
use crate::decimal::{hex_fixed, padded, padded_decimal, write_hex};
use crate::format::{extension_of, FormatKind};

verus! {

/// `name` placed inside directory `root`.
pub open spec fn join(root: Seq<char>, name: Seq<char>) -> Seq<char> {
    if root.len() == 0 {
        name
    } else if root.last() == '/' {
        root + name
    } else {
        root + seq!['/'] + name
    }
}

/// `stem` with the extension of format `k`.
pub open spec fn with_extension(stem: Seq<char>, k: FormatKind) -> Seq<char> {
    stem + seq!['.'] + extension_of(k)
}

/// Where the archive of `path` is written.
pub open spec fn archive_of(path: Seq<char>) -> Seq<char> {
    path + seq!['.', 't', 'a', 'r', '.', 'g', 'z']
}

/// Width of the zero-padded run, day and hour numbers in names.
pub const COUNTER_WIDTH: usize = 10;

/// Width of the zero-padded frame number of run-based single-frame files.
pub const FRAME_WIDTH: usize = 20;

/// The name of the directory of run `run`.
pub open spec fn run_name(run: nat) -> Seq<char> {
    padded_decimal(run, COUNTER_WIDTH as nat)
}

/// The lock file name for a format whose type hash is `hash`.
pub open spec fn lock_name(hash: u64) -> Seq<char> {
    hex_fixed(hash as nat, 16) + seq!['.', 'l', 'o', 'c', 'k']
}

/// `name` placed inside directory `root`.
pub fn join_path(root: &str, name: &str) -> (r: String)
    ensures
        r@ == join(root@, name@),
{
    proof {
        reveal_strlit("/");
    }
    let len = root.unicode_len();
    let mut out = String::from_str(root);
    if len > 0 && root.get_char(len - 1) != '/' {
        out.append("/");
    }
    out.append(name);
    out
}

/// `stem` with the extension of format `k`.
pub fn name_with_extension(stem: &str, k: FormatKind) -> (r: String)
    ensures
        r@ == with_extension(stem@, k),
{
    proof {
        reveal_strlit(".");
    }
    let mut out = String::from_str(stem);
    out.append(".");
    out.append(k.extension());
    out
}

/// Where the archive of `path` is written: `path` with `.tar.gz` appended.
pub fn archive_path(path: &str) -> (r: String)
    ensures
        r@ == archive_of(path@),
{
    proof {
        reveal_strlit(".tar.gz");
    }
    let mut out = String::from_str(path);
    out.append(".tar.gz");
    out
}

/// The lock file of format `k` under `root`: the type hash as sixteen
/// hexadecimal digits, with the extension `lock`.
pub fn lock_path(root: &str, k: FormatKind) -> (r: String)
    ensures
        r@ == join(root@, lock_name(crate::format::fnv1a(crate::format::type_id_of(k)))),
{
    proof {
        reveal_strlit(".lock");
    }
    let mut name = String::new();
    write_hex(k.type_hash(), 16, &mut name);
    name.append(".lock");
    assert(name@ =~= lock_name(crate::format::fnv1a(crate::format::type_id_of(k))));
    join_path(root, name.as_str())
}

/// The directory of run `run` under `root`.
pub fn run_dir(root: &str, run: u64) -> (r: String)
    ensures
        r@ == join(root@, run_name(run as nat)),
{
    let name = padded(run, COUNTER_WIDTH);
    join_path(root, name.as_str())
}

/// A counter-named file (`<n zero-padded to width>.<ext>`) inside `dir`.
pub fn counter_file(dir: &str, n: u64, width: usize, k: FormatKind) -> (r: String)
    ensures
        r@ == join(dir@, with_extension(padded_decimal(n as nat, width as nat), k)),
{
    let stem = padded(n, width);
    let name = name_with_extension(stem.as_str(), k);
    join_path(dir, name.as_str())
}

/// A counter-named directory (`<n zero-padded>`) inside `dir`.
pub fn counter_dir(dir: &str, n: u64) -> (r: String)
    ensures
        r@ == join(dir@, padded_decimal(n as nat, COUNTER_WIDTH as nat)),
{
    let name = padded(n, COUNTER_WIDTH);
    join_path(dir, name.as_str())
}

/// The day directory of `t` under `root`: `YYYYMMDD`.
pub fn date_dir(root: &str, t: &UtcTime) -> (r: String)
    ensures
        r@ == join(root@, date_text(t@)),
{
    let name = t.date_text();
    join_path(root, name.as_str())
}

/// The file of an appending segment that starts at hour `hh` of `t`'s day:
/// `YYYYMMDDHH0000.<ext>`.
pub fn hour_file(dir: &str, t: &UtcTime, hh: &str, k: FormatKind) -> (r: String)
    ensures
        r@ == join(dir@, with_extension(date_text(t@) + hh@ + seq!['0', '0', '0', '0'], k)),
{
    proof {
        reveal_strlit("0000");
    }
    let mut stem = t.date_text();
    stem.append(hh);
    stem.append("0000");
    let name = name_with_extension(stem.as_str(), k);
    join_path(dir, name.as_str())
}

/// The file of a single frame stored at `t`: `YYYYMMDDHHMMSS.ffffff.<ext>`.
pub fn instant_file(dir: &str, t: &UtcTime, k: FormatKind) -> (r: String)
    ensures
        r@ == join(dir@, with_extension(date_text(t@) + clock_text(t@), k)),
{
    let mut stem = t.date_text();
    let clock = t.clock_text();
    stem.append(clock.as_str());
    let name = name_with_extension(stem.as_str(), k);
    join_path(dir, name.as_str())
}

/// Inside one directory, different names give different paths.
pub proof fn lemma_join_injective(root: Seq<char>, a: Seq<char>, b: Seq<char>)
    requires
        join(root, a) == join(root, b),
    ensures
        a == b,
{
    let ja = join(root, a);
    let jb = join(root, b);
    if root.len() == 0 {
    } else if root.last() == '/' {
        assert(ja.subrange(root.len() as int, ja.len() as int) =~= a);
        assert(jb.subrange(root.len() as int, jb.len() as int) =~= b);
    } else {
        assert(ja.subrange(root.len() as int + 1, ja.len() as int) =~= a);
        assert(jb.subrange(root.len() as int + 1, jb.len() as int) =~= b);
    }
}

/// With one extension, different stems give different names.
pub proof fn lemma_with_extension_injective(x: Seq<char>, y: Seq<char>, k: FormatKind)
    requires
        with_extension(x, k) == with_extension(y, k),
    ensures
        x == y,
{
    let wx = with_extension(x, k);
    let wy = with_extension(y, k);
    assert(wx.subrange(0, x.len() as int) =~= x);
    assert(wy.subrange(0, y.len() as int) =~= y);
}

/// Different frame numbers of one run give different files.
pub proof fn lemma_counter_files_distinct(dir: Seq<char>, a: nat, b: nat, width: nat, k: FormatKind)
    requires
        a != b,
    ensures
        join(dir, with_extension(padded_decimal(a, width), k)) != join(
            dir,
            with_extension(padded_decimal(b, width), k),
        ),
{
    if join(dir, with_extension(padded_decimal(a, width), k)) == join(
        dir,
        with_extension(padded_decimal(b, width), k),
    ) {
        lemma_join_injective(
            dir,
            with_extension(padded_decimal(a, width), k),
            with_extension(padded_decimal(b, width), k),
        );
        lemma_with_extension_injective(padded_decimal(a, width), padded_decimal(b, width), k);
        crate::decimal::lemma_padded_injective(a, b, width);
    }
}

} // verus!
