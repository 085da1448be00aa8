//! The directory listing engine behind `ls`: flag parsing, target ordering,
//! the metadata model of an entry and its short and long renderings.
use vstd::prelude::*;

use chrono::{Datelike, Timelike};

use crate::order::{ordered, sort_listing, ListingOrder};
use crate::paths::{opt_chars, file_name, file_name_text, get_parent, join_path, join_text, parent_text};
use crate::text::{words, ends_with, vec_ends_with, align_left, align_right, push_left, push_right, chars_le, from_chars, str_is, decimal, lemma_chars_le_total, lemma_chars_le_trans, push_all, push_decimal, to_chars, vec_chars_le};

verus! {

/// The kind of a file-system node, read from its mode bits.
#[derive(PartialEq, Eq, Structural, Clone, Copy, Debug)]
pub enum EntityType {
    File,
    Dir,
    /// A regular file with at least one execute bit set.
    Executable,
    SymLink,
    CharacterDevice,
    BlockDevice,
    Fifo,
    Socket,
    Unknown,
}

/// The kind that the mode bits `mode` describe.
pub open spec fn file_type_of(mode: u32) -> EntityType {
    let fmt = mode & 0o170000u32;
    if fmt == 0o100000u32 {
        if mode & 0o111u32 != 0 {
            EntityType::Executable
        } else {
            EntityType::File
        }
    } else if fmt == 0o040000u32 {
        EntityType::Dir
    } else if fmt == 0o120000u32 {
        EntityType::SymLink
    } else if fmt == 0o020000u32 {
        EntityType::CharacterDevice
    } else if fmt == 0o060000u32 {
        EntityType::BlockDevice
    } else if fmt == 0o010000u32 {
        EntityType::Fifo
    } else if fmt == 0o140000u32 {
        EntityType::Socket
    } else {
        EntityType::Unknown
    }
}

/// The kind that the mode bits `mode` describe.
pub fn get_file_type(mode: u32) -> (r: EntityType)
    ensures
        r == file_type_of(mode),
{
    let fmt = mode & 0o170000u32;
    if fmt == 0o100000u32 {
        if mode & 0o111u32 != 0 {
            EntityType::Executable
        } else {
            EntityType::File
        }
    } else if fmt == 0o040000u32 {
        EntityType::Dir
    } else if fmt == 0o120000u32 {
        EntityType::SymLink
    } else if fmt == 0o020000u32 {
        EntityType::CharacterDevice
    } else if fmt == 0o060000u32 {
        EntityType::BlockDevice
    } else if fmt == 0o010000u32 {
        EntityType::Fifo
    } else if fmt == 0o140000u32 {
        EntityType::Socket
    } else {
        EntityType::Unknown
    }
}

/// The type letter of the long format.
pub open spec fn type_symbol(t: EntityType) -> Seq<char> {
    match t {
        EntityType::File => "-"@,
        EntityType::Dir => "d"@,
        EntityType::SymLink => "l"@,
        EntityType::CharacterDevice => "c"@,
        EntityType::BlockDevice => "b"@,
        EntityType::Fifo => "p"@,
        EntityType::Socket => "s"@,
        EntityType::Executable => "-"@,
        EntityType::Unknown => ""@,
    }
}

/// The classification suffix of `-F`.
pub open spec fn type_suffix(t: EntityType) -> Seq<char> {
    match t {
        EntityType::Dir => "/"@,
        EntityType::SymLink => "@"@,
        EntityType::Fifo => "|"@,
        EntityType::Socket => "="@,
        EntityType::Executable => "*"@,
        _ => ""@,
    }
}

/// The type letter and the classification suffix of `file_type`.
pub fn get_file_type_symbols(file_type: EntityType) -> (r: (&'static str, &'static str))
    ensures
        r.0@ == type_symbol(file_type),
        r.1@ == type_suffix(file_type),
{
    match file_type {
        EntityType::File => ("-", ""),
        EntityType::Dir => ("d", "/"),
        EntityType::SymLink => ("l", "@"),
        EntityType::CharacterDevice => ("c", ""),
        EntityType::BlockDevice => ("b", ""),
        EntityType::Fifo => ("p", "|"),
        EntityType::Socket => ("s", "="),
        EntityType::Executable => ("-", "*"),
        EntityType::Unknown => ("", ""),
    }
}

/// `c` where `bit` is set, `-` elsewhere.
pub open spec fn flag_char(bit: bool, c: char) -> char {
    if bit { c } else { '-' }
}

/// The execute position: `x`/`-`, or, where the special bit is set,
/// `lower` if the execute bit is set and `upper` if not.
pub open spec fn exec_char(x: bool, special: bool, lower: char, upper: char) -> char {
    if special {
        if x { lower } else { upper }
    } else {
        if x { 'x' } else { '-' }
    }
}

/// Whether any bit of `mask` is set in `mode`.
pub open spec fn has_bits(mode: u32, mask: u32) -> bool {
    mode & mask != 0
}

fn bits_set(mode: u32, mask: u32) -> (r: bool)
    ensures
        r == has_bits(mode, mask),
{
    mode & mask != 0
}

/// The nine permission characters of `mode`, then `+` where an access
/// control list is attached.
pub open spec fn permissions_text(mode: u32, has_acl: bool) -> Seq<char> {
    let p = seq![
        flag_char(has_bits(mode, 0o400), 'r'),
        flag_char(has_bits(mode, 0o200), 'w'),
        exec_char(has_bits(mode, 0o100), has_bits(mode, 0o4000), 's', 'S'),
        flag_char(has_bits(mode, 0o040), 'r'),
        flag_char(has_bits(mode, 0o020), 'w'),
        exec_char(has_bits(mode, 0o010), has_bits(mode, 0o2000), 's', 'S'),
        flag_char(has_bits(mode, 0o004), 'r'),
        flag_char(has_bits(mode, 0o002), 'w'),
        exec_char(has_bits(mode, 0o001), has_bits(mode, 0o1000), 't', 'T'),
    ];
    if has_acl { p.push('+') } else { p }
}

fn exec_position(x: bool, special: bool, lower: char, upper: char) -> (c: char)
    ensures
        c == exec_char(x, special, lower, upper),
{
    if special {
        if x { lower } else { upper }
    } else {
        if x { 'x' } else { '-' }
    }
}

fn flag_position(bit: bool, c: char) -> (r: char)
    ensures
        r == flag_char(bit, c),
{
    if bit { c } else { '-' }
}

/// The permission string of the long format.
pub fn get_permissions(mode: u32, has_acl: bool) -> (r: String)
    ensures
        r@ == permissions_text(mode, has_acl),
{
    let c1 = flag_position(bits_set(mode, 0o400), 'r');
    let c2 = flag_position(bits_set(mode, 0o200), 'w');
    let c3 = exec_position(bits_set(mode, 0o100), bits_set(mode, 0o4000), 's', 'S');
    let c4 = flag_position(bits_set(mode, 0o040), 'r');
    let c5 = flag_position(bits_set(mode, 0o020), 'w');
    let c6 = exec_position(bits_set(mode, 0o010), bits_set(mode, 0o2000), 's', 'S');
    let c7 = flag_position(bits_set(mode, 0o004), 'r');
    let c8 = flag_position(bits_set(mode, 0o002), 'w');
    let c9 = exec_position(bits_set(mode, 0o001), bits_set(mode, 0o1000), 't', 'T');
    let mut p = String::new();
    p.push(c1);
    p.push(c2);
    p.push(c3);
    p.push(c4);
    p.push(c5);
    p.push(c6);
    p.push(c7);
    p.push(c8);
    p.push(c9);
    assert(p@ =~= seq![c1, c2, c3, c4, c5, c6, c7, c8, c9]);
    if has_acl {
        p.push('+');
    }
    p
}

/// The major number that glibc's `gnu_dev_major` layout gives for `dev`.
pub open spec fn dev_major_of(dev: u64) -> u32 {
    (((dev & 0x00000000000fff00u64) >> 8u64) | ((dev & 0xfffff00000000000u64) >> 32u64)) as u32
}

/// The minor number that glibc's `gnu_dev_minor` layout gives for `dev`.
pub open spec fn dev_minor_of(dev: u64) -> u32 {
    ((dev & 0x00000000000000ffu64) | ((dev & 0x00000ffffff00000u64) >> 12u64)) as u32
}

/// Relies on `libc::major`: the major number encoded in a device id.
#[verifier::external_body]
fn dev_major(dev: u64) -> (r: u32)
    ensures
        r == dev_major_of(dev),
{
    libc::major(dev)
}

/// Relies on `libc::minor`: the minor number encoded in a device id.
#[verifier::external_body]
fn dev_minor(dev: u64) -> (r: u32)
    ensures
        r == dev_minor_of(dev),
{
    libc::minor(dev)
}

/// The device numbers of a character or block device.
pub open spec fn major_minor_of(file_type: EntityType, rdev: u64) -> Option<(u32, u32)> {
    if file_type == EntityType::CharacterDevice || file_type == EntityType::BlockDevice {
        Some((dev_major_of(rdev), dev_minor_of(rdev)))
    } else {
        None
    }
}

/// The (major, minor) pair of a device file; `None` for other kinds.
pub fn major_minor(file_type: EntityType, rdev: u64) -> (r: Option<(u32, u32)>)
    ensures
        r == major_minor_of(file_type, rdev),
{
    if file_type != EntityType::CharacterDevice && file_type != EntityType::BlockDevice {
        return None;
    }
    Some((dev_major(rdev), dev_minor(rdev)))
}

/// The local calendar time of a timestamp, as (year, month, day, hour, minute).
pub uninterp spec fn local_time_of(ts: i64) -> Option<(i32, u32, u32, u32, u32)>;

/// Timestamps whose local calendar time is computed; further out the
/// calendar arithmetic leaves its range.
pub open spec fn in_calendar_range(ts: i64) -> bool {
    -8_000_000_000_000i64 <= ts <= 8_000_000_000_000i64
}

/// Relies on `chrono::DateTime::from_timestamp` and `with_timezone` with
/// chrono-tz's `Africa::Casablanca`: the local date and time of a Unix
/// timestamp, fields in their documented ranges.
#[verifier::external_body]
fn casablanca_time(ts: i64) -> (r: Option<(i32, u32, u32, u32, u32)>)
    requires
        in_calendar_range(ts),
    ensures
        r == local_time_of(ts),
        r matches Some((y, mo, d, h, mi)) ==> 1 <= mo <= 12 && 1 <= d <= 31 && h < 24 && mi < 60,
{
    match chrono::DateTime::<chrono::Utc>::from_timestamp(ts, 0) {
        Some(dt) => {
            let t = dt.with_timezone(&chrono_tz::Africa::Casablanca);
            Some((t.year(), t.month(), t.day(), t.hour(), t.minute()))
        },
        None => None,
    }
}

/// The three-letter abbreviation of month `m`.
pub open spec fn month_abbr(m: u32) -> Seq<char> {
    if m == 1 { "Jan"@ }
    else if m == 2 { "Feb"@ }
    else if m == 3 { "Mar"@ }
    else if m == 4 { "Apr"@ }
    else if m == 5 { "May"@ }
    else if m == 6 { "Jun"@ }
    else if m == 7 { "Jul"@ }
    else if m == 8 { "Aug"@ }
    else if m == 9 { "Sep"@ }
    else if m == 10 { "Oct"@ }
    else if m == 11 { "Nov"@ }
    else { "Dec"@ }
}

fn month_name(m: u32) -> (r: &'static str)
    ensures
        r@ == month_abbr(m),
{
    if m == 1 { "Jan" }
    else if m == 2 { "Feb" }
    else if m == 3 { "Mar" }
    else if m == 4 { "Apr" }
    else if m == 5 { "May" }
    else if m == 6 { "Jun" }
    else if m == 7 { "Jul" }
    else if m == 8 { "Aug" }
    else if m == 9 { "Sep" }
    else if m == 10 { "Oct" }
    else if m == 11 { "Nov" }
    else { "Dec" }
}

/// `n` written with at least `w` digits, zeros in front.
pub open spec fn zero_padded(n: nat, w: nat) -> Seq<char> {
    let d = decimal(n);
    if d.len() < w { Seq::new((w - d.len()) as nat, |i: int| '0') + d } else { d }
}

/// A day of the month, space-padded to two characters.
pub open spec fn day_text(d: u32) -> Seq<char> {
    if d < 10 { seq![' '] + decimal(d as nat) } else { decimal(d as nat) }
}

/// A year: four digits, zero-padded, between 0 and 9999; otherwise with its
/// sign in front.
pub open spec fn year_text(y: i32) -> Seq<char> {
    if 0 <= y <= 9999 {
        zero_padded(y as nat, 4)
    } else if y > 9999 {
        seq!['+'] + zero_padded(y as nat, 4)
    } else {
        seq!['-'] + zero_padded((-(y as int)) as nat, 4)
    }
}

/// Whether a modification time is shown with its clock time: within the
/// 183 days before `now`, and not in the future.
pub open spec fn is_recent(mtime: i64, now: i64) -> bool {
    now - 15_811_200 < mtime < now
}

/// `n` written in decimal with a leading `-` when negative.
pub open spec fn signed_decimal(n: int) -> Seq<char> {
    if n < 0 { seq!['-'] + decimal((-n) as nat) } else { decimal(n as nat) }
}

/// The time column of the long format for the local calendar time `local`
/// of `mtime`: month, day, and the clock time of recent entries or the year
/// of others; the raw seconds where no calendar time is known.
pub open spec fn civil_text(local: Option<(i32, u32, u32, u32, u32)>, mtime: i64, now: i64) -> Seq<char> {
    match local {
        Some((y, mo, d, h, mi)) => month_abbr(mo) + seq![' '] + day_text(d) + seq![' '] + (
        if is_recent(mtime, now) {
            zero_padded(h as nat, 2) + seq![':'] + zero_padded(mi as nat, 2)
        } else {
            seq![' '] + year_text(y)
        }),
        None => signed_decimal(mtime as int),
    }
}

/// The time column of the long format.
pub open spec fn time_text(mtime: i64, now: i64) -> Seq<char> {
    civil_text(if in_calendar_range(mtime) { local_time_of(mtime) } else { None }, mtime, now)
}

fn push_zero_padded(s: &mut String, n: u64, w: usize)
    ensures
        final(s)@ == old(s)@ + zero_padded(n as nat, w as nat),
{
    let mut d = String::new();
    push_decimal(&mut d, n);
    let len = d.as_str().unicode_len();
    let ghost zs: Seq<char> = Seq::new((w - len) as nat, |i: int| '0');
    if len < w {
        let mut i: usize = 0;
        while i < w - len
            invariant
                i <= w - len,
                s@ == old(s)@ + Seq::new(i as nat, |k: int| '0'),
            decreases w - len - i,
        {
            s.push('0');
            assert(Seq::new((i + 1) as nat, |k: int| '0') =~= Seq::new(i as nat, |k: int| '0').push('0'));
            i = i + 1;
        }
    }
    push_all(s, d.as_str());
    assert(d@ =~= decimal(n as nat));
    assert(s@ =~= old(s)@ + zero_padded(n as nat, w as nat));
}

/// Appends `n` in decimal, with a leading `-` when negative.
pub fn push_signed(s: &mut String, n: i64)
    ensures
        final(s)@ == old(s)@ + signed_decimal(n as int),
{
    if n < 0 {
        s.push('-');
        let m: u64 = if n == i64::MIN { 9_223_372_036_854_775_808u64 } else { (-n) as u64 };
        push_decimal(s, m);
        assert(s@ =~= old(s)@ + signed_decimal(n as int));
    } else {
        push_decimal(s, n as u64);
    }
}

fn push_day(s: &mut String, d: u32)
    ensures
        final(s)@ == old(s)@ + day_text(d),
{
    if d < 10 {
        s.push(' ');
    }
    push_decimal(s, d as u64);
    assert(s@ =~= old(s)@ + day_text(d));
}

fn push_year(s: &mut String, y: i32)
    ensures
        final(s)@ == old(s)@ + year_text(y),
{
    if y < 0 {
        s.push('-');
        push_zero_padded(s, (-(y as i64)) as u64, 4);
    } else {
        if y > 9999 {
            s.push('+');
        }
        push_zero_padded(s, y as u64, 4);
    }
    assert(s@ =~= old(s)@ + year_text(y));
}

fn push_clock(s: &mut String, h: u32, mi: u32)
    ensures
        final(s)@ == old(s)@ + zero_padded(h as nat, 2) + seq![':'] + zero_padded(mi as nat, 2),
{
    push_zero_padded(s, h as u64, 2);
    s.push(':');
    push_zero_padded(s, mi as u64, 2);
    assert(s@ =~= old(s)@ + zero_padded(h as nat, 2) + seq![':'] + zero_padded(mi as nat, 2));
}

/// The time column of the long format, `local` being the local calendar
/// time (year, month, day, hour, minute) of `mtime`, if known.
pub fn format_modified_time(local: Option<(i32, u32, u32, u32, u32)>, mtime: i64, now: i64) -> (r: String)
    ensures
        r@ == civil_text(local, mtime, now),
{
    let mut s = String::new();
    match local {
        Some((y, mo, d, h, mi)) => {
            push_all(&mut s, month_name(mo));
            s.push(' ');
            push_day(&mut s, d);
            s.push(' ');
            let recent = (now as i128) - 15_811_200 < (mtime as i128) && mtime < now;
            let ghost head = s@;
            if recent {
                push_clock(&mut s, h, mi);
            } else {
                s.push(' ');
                push_year(&mut s, y);
            }
            assert(head =~= month_abbr(mo) + seq![' '] + day_text(d) + seq![' ']);
            assert(s@ =~= civil_text(local, mtime, now));
        },
        None => {
            push_signed(&mut s, mtime);
            assert(s@ =~= civil_text(local, mtime, now));
        },
    }
    s
}

/// The time column of the long format: month, day, and the clock time for
/// recent entries or the year for others, in Casablanca time.
pub fn get_modified_time(mtime: i64, now: i64) -> (r: String)
    ensures
        r@ == time_text(mtime, now),
{
    let local = if -8_000_000_000_000i64 <= mtime && mtime <= 8_000_000_000_000i64 {
        casablanca_time(mtime)
    } else {
        None
    };
    format_modified_time(local, mtime, now)
}

/// The raw metadata of a file-system node, as `lstat` reports it.
#[derive(Clone, Copy, Debug, PartialEq, Eq, Structural)]
pub struct Stat {
    pub mode: u32,
    pub nlink: u64,
    pub uid: u32,
    pub gid: u32,
    pub size: u64,
    /// Seconds since the Unix epoch.
    pub mtime: i64,
    /// Allocation in 512-byte units.
    pub blocks: u64,
    /// The device id of a device file.
    pub rdev: u64,
}

/// One file-system node with what its listing row shows.
#[derive(Clone, Debug)]
pub struct Entity {
    /// The name the row shows.
    pub name: String,
    pub path: String,
    pub stat: Stat,
    /// Where a symbolic link points.
    pub link_target: Option<String>,
    /// The mode of what a symbolic link resolves to, if it resolves.
    pub link_mode: Option<u32>,
    /// The owner's user name, if it resolves.
    pub owner: Option<String>,
    /// The group's name, if it resolves.
    pub group: Option<String>,
    /// Whether a POSIX access control list is attached.
    pub has_acl: bool,
}

impl Entity {
    /// The kind of the node.
    pub open spec fn kind(&self) -> EntityType {
        file_type_of(self.stat.mode)
    }

    /// An entity for `path`, named by its final component.
    pub fn new(path: String, stat: Stat) -> (r: Entity)
        ensures
            r.name@ == file_name_text(path@),
            r.path == path,
            r.stat == stat,
            r.link_target is None,
            r.link_mode is None,
            r.owner is None,
            r.group is None,
            !r.has_acl,
    {
        let name = file_name(path.as_str());
        Entity::named(name, path, stat)
    }

    /// An entity for `path` shown under `name`.
    pub fn named(name: String, path: String, stat: Stat) -> (r: Entity)
        ensures
            r.name == name,
            r.path == path,
            r.stat == stat,
            r.link_target is None,
            r.link_mode is None,
            r.owner is None,
            r.group is None,
            !r.has_acl,
    {
        Entity {
            name,
            path,
            stat,
            link_target: None,
            link_mode: None,
            owner: None,
            group: None,
            has_acl: false,
        }
    }

    /// The kind of the node.
    pub fn file_type(&self) -> (r: EntityType)
        ensures
            r == self.kind(),
    {
        get_file_type(self.stat.mode)
    }
}

/// A name without one leading dot.
pub open spec fn strip_dot(s: Seq<char>) -> Seq<char> {
    if s.len() > 0 && s[0] == '.' { s.drop_first() } else { s }
}

/// Rows of a directory sort by name, a leading dot set aside.
impl ListingOrder for Entity {
    open spec fn precedes(&self, other: &Self) -> bool {
        chars_le(strip_dot(self.name@), strip_dot(other.name@))
    }

    proof fn lemma_precedes_total(a: &Self, b: &Self) {
        lemma_chars_le_total(strip_dot(a.name@), strip_dot(b.name@));
    }

    proof fn lemma_precedes_trans(a: &Self, b: &Self, c: &Self) {
        lemma_chars_le_trans(strip_dot(a.name@), strip_dot(b.name@), strip_dot(c.name@));
    }

    fn before(&self, other: &Self) -> (r: bool) {
        let a = strip_dot_chars(to_chars(self.name.as_str()));
        let b = strip_dot_chars(to_chars(other.name.as_str()));
        vec_chars_le(&a, &b)
    }
}

/// Rows named `.a`, `b` and `.c` can stand only in that order: names are
/// compared with one leading dot set aside, so dotfiles interleave with the
/// others.
pub proof fn dotfiles_interleave(x: Entity, y: Entity, z: Entity)
    requires
        x.name@ == ".a"@,
        y.name@ == "b"@,
        z.name@ == ".c"@,
    ensures
        x.precedes(&y),
        y.precedes(&z),
        !y.precedes(&x),
        !z.precedes(&y),
        forall|s: Seq<Entity>|
            s.len() == 3 && ordered(s) && s.to_multiset() == seq![z, x, y].to_multiset()
                ==> s == seq![x, y, z],
{
    reveal_strlit(".a");
    reveal_strlit("b");
    reveal_strlit(".c");
    assert(strip_dot(x.name@) =~= seq!['a']);
    assert(strip_dot(y.name@) =~= seq!['b']);
    assert(strip_dot(z.name@) =~= seq!['c']);
    assert(chars_le(seq!['a'], seq!['b']));
    assert(chars_le(seq!['b'], seq!['c']));
    assert(!chars_le(seq!['b'], seq!['a']));
    assert(!chars_le(seq!['c'], seq!['b']));
    assert(chars_le(seq!['a'], seq!['c']));
    assert(!chars_le(seq!['c'], seq!['a']));
    assert forall|s: Seq<Entity>|
        s.len() == 3 && ordered(s) && s.to_multiset() == seq![z, x, y].to_multiset()
            implies s == seq![x, y, z] by {
        broadcast use vstd::seq_lib::group_to_multiset_ensures;
        let m = seq![z, x, y].to_multiset();
        assert(seq![z, x, y] =~= seq![z, x].push(y));
        assert(seq![z, x] =~= seq![z].push(x));
        assert(seq![z] =~= Seq::<Entity>::empty().push(z));
        assert(m.count(x) > 0 && m.count(y) > 0 && m.count(z) > 0);
        assert(s.contains(x) && s.contains(y) && s.contains(z));
        assert forall|k: int| 0 <= k < 3 implies s[k] == x || s[k] == y || s[k] == z by {
            assert(s.to_multiset().count(s[k]) > 0);
            assert(m.count(s[k]) > 0);
            assert(seq![z, x, y].contains(s[k]));
        }
        assert(s[0].precedes(&s[1]) && s[1].precedes(&s[2]) && s[0].precedes(&s[2]));
        assert(s =~= seq![x, y, z]);
    }
}

fn strip_dot_chars(v: Vec<char>) -> (r: Vec<char>)
    ensures
        r@ == strip_dot(v@),
{
    let ghost orig = v@;
    let mut v = v;
    if v.len() > 0 && v[0] == '.' {
        v.remove(0);
        assert(orig.remove(0) =~= orig.drop_first());
    }
    v
}

/// One target of `ls`: the name it was given under, and its node.
#[derive(Clone, Debug)]
pub struct Target(pub String, pub Entity);

impl Target {
    /// Whether the target is a directory (a link to one is not).
    pub open spec fn is_dir(&self) -> bool {
        self.1.kind() == EntityType::Dir
    }
}

/// Targets sort files first, then directories, each group by name.
impl ListingOrder for Target {
    open spec fn precedes(&self, other: &Self) -> bool {
        (!self.is_dir() && other.is_dir()) || (self.is_dir() == other.is_dir() && chars_le(
            self.0@,
            other.0@,
        ))
    }

    proof fn lemma_precedes_total(a: &Self, b: &Self) {
        lemma_chars_le_total(a.0@, b.0@);
    }

    proof fn lemma_precedes_trans(a: &Self, b: &Self, c: &Self) {
        if a.is_dir() == b.is_dir() && b.is_dir() == c.is_dir() {
            lemma_chars_le_trans(a.0@, b.0@, c.0@);
        }
    }

    fn before(&self, other: &Self) -> (r: bool) {
        let a_dir = self.1.file_type() == EntityType::Dir;
        let b_dir = other.1.file_type() == EntityType::Dir;
        if a_dir != b_dir {
            !a_dir
        } else {
            vec_chars_le(&to_chars(self.0.as_str()), &to_chars(other.0.as_str()))
        }
    }
}

/// The options of one `ls` invocation.
#[derive(Clone, Copy, Debug, PartialEq, Eq, Structural)]
pub struct Flags {
    /// `-l`: the long format.
    pub long: bool,
    /// `-a`: dotfiles, and `.` and `..`.
    pub all: bool,
    /// `-F`: classification suffixes.
    pub classify: bool,
}

/// Whether an argument is a bundle of options.
pub open spec fn is_flag_arg(a: Seq<char>) -> bool {
    a.len() > 0 && a[0] == '-'
}

/// Splits arguments into option bundles and paths: a first `--` ends the
/// options and is dropped; the third component says whether it was seen.
pub open spec fn split_args(args: Seq<Seq<char>>) -> (Seq<Seq<char>>, Seq<Seq<char>>, bool)
    decreases args.len(),
{
    if args.len() == 0 {
        (Seq::empty(), Seq::empty(), false)
    } else {
        let (f, t, dd) = split_args(args.drop_last());
        let a = args.last();
        if !dd && a == "--"@ {
            (f, t, true)
        } else if !dd && is_flag_arg(a) {
            (f.push(a), t, dd)
        } else {
            (f, t.push(a), dd)
        }
    }
}

/// The option letters of a sequence of bundles, in order.
pub open spec fn flag_letters(bundles: Seq<Seq<char>>) -> Seq<char>
    decreases bundles.len(),
{
    if bundles.len() == 0 {
        Seq::empty()
    } else {
        flag_letters(bundles.drop_last()) + letters_of(bundles.last())
    }
}

/// The option letters of one bundle: all but its leading dash.
pub open spec fn letters_of(bundle: Seq<char>) -> Seq<char> {
    if bundle.len() == 0 { bundle } else { bundle.drop_first() }
}

/// The option letters of `ls`.
pub open spec fn is_valid_flag(c: char) -> bool {
    c == 'l' || c == 'a' || c == 'F'
}

/// The first letter that is no option of `ls`.
pub open spec fn first_invalid(letters: Seq<char>) -> Option<char>
    decreases letters.len(),
{
    if letters.len() == 0 {
        None
    } else if !is_valid_flag(letters[0]) {
        Some(letters[0])
    } else {
        first_invalid(letters.drop_first())
    }
}

/// The message for an unknown option letter.
pub open spec fn invalid_option_text(c: char) -> Seq<char> {
    "ls: invalid option -- '"@ + seq![c] + "'"@
}

/// `flags` with the options among `letters` switched on.
pub open spec fn with_letters(flags: Flags, letters: Seq<char>) -> Flags {
    Flags {
        long: flags.long || letters.contains('l'),
        all: flags.all || letters.contains('a'),
        classify: flags.classify || letters.contains('F'),
    }
}

/// The flags of a fresh invocation.
pub open spec fn no_flags() -> Flags {
    Flags { long: false, all: false, classify: false }
}

/// A path made absolute against the current directory.
pub open spec fn absolute_text(current: Seq<char>, path: Seq<char>) -> Seq<char> {
    if path.len() > 0 && path[0] == '/' {
        path
    } else {
        current + "/"@ + path
    }
}

/// Each path argument with its absolute path.
pub open spec fn resolved(current: Seq<char>, args: Seq<Seq<char>>) -> Seq<(Seq<char>, Seq<char>)>
    decreases args.len(),
{
    if args.len() == 0 {
        Seq::empty()
    } else {
        resolved(current, args.drop_last()).push((args.last(), absolute_text(current, args.last())))
    }
}

/// The (name, absolute path) pairs to look up for the path arguments.
pub open spec fn target_requests_of(current: Seq<char>, args: Seq<Seq<char>>) -> Seq<(Seq<char>, Seq<char>)> {
    if args.len() == 0 {
        seq![("."@, current + "/."@)]
    } else {
        resolved(current, args)
    }
}

/// The characters of (name, path) pairs.
pub open spec fn pair_chars(v: Seq<(String, String)>) -> Seq<(Seq<char>, Seq<char>)> {
    v.map_values(|p: (String, String)| (p.0@, p.1@))
}

/// One `ls` invocation: its options and its targets.
pub struct LsConfig {
    pub current_path: String,
    pub flags: Flags,
    /// The targets that were found, in listing order.
    pub targets: Vec<Target>,
    /// How many path arguments were given.
    pub targets_len: usize,
    /// The path arguments, in the order given.
    pub target_args: Vec<String>,
}

fn split_args_exec(args: &Vec<String>) -> (r: (Vec<String>, Vec<String>))
    ensures
        words(r.0@) == split_args(words(args@)).0,
        words(r.1@) == split_args(words(args@)).1,
{
    let mut flag_args: Vec<String> = Vec::new();
    let mut target_args: Vec<String> = Vec::new();
    let mut flag_as_target = false;
    let mut i: usize = 0;
    while i < args.len()
        invariant
            i <= args.len(),
            (words(flag_args@), words(target_args@), flag_as_target) == split_args(
                words(args@).take(i as int),
            ),
        decreases args.len() - i,
    {
        let arg = args[i].clone();
        let ghost a = words(args@)[i as int];
        proof {
            assert(words(args@).take(i as int + 1).drop_last() =~= words(args@).take(i as int));
            assert(words(args@).take(i as int + 1).last() == a);
        }
        let chars = to_chars(arg.as_str());
        if !flag_as_target && str_is(arg.as_str(), "--") {
            flag_as_target = true;
        } else if !flag_as_target && chars.len() > 0 && chars[0] == '-' {
            let ghost prev = flag_args@;
            flag_args.push(arg);
            assert(words(flag_args@) =~= words(prev).push(a));
        } else {
            let ghost prev = target_args@;
            target_args.push(arg);
            assert(words(target_args@) =~= words(prev).push(a));
        }
        i = i + 1;
    }
    assert(words(args@).take(i as int) =~= words(args@));
    (flag_args, target_args)
}

impl LsConfig {
    /// Parses the arguments of `ls`: option bundles until a first `--`, the
    /// rest paths. An unknown option letter fails the whole invocation.
    pub fn new(args: Vec<String>, current_path: String) -> (r: Result<Self, String>)
        ensures
            ({
                let (f, t, _) = split_args(words(args@));
                let letters = flag_letters(f);
                &&& r is Ok <==> first_invalid(letters) is None
                &&& r matches Ok(ls) ==> {
                    &&& ls.flags == with_letters(no_flags(), letters)
                    &&& words(ls.target_args@) == t
                    &&& ls.targets_len == t.len()
                    &&& ls.targets@.len() == 0
                    &&& ls.current_path == current_path
                }
                &&& r matches Err(m) ==> m@ == invalid_option_text(first_invalid(letters)->Some_0)
            }),
    {
        let (flag_args, target_args) = split_args_exec(&args);
        let mut ls = LsConfig {
            current_path,
            flags: Flags { long: false, all: false, classify: false },
            targets: Vec::new(),
            targets_len: target_args.len(),
            target_args,
        };
        match ls.parse_flags(flag_args) {
            Ok(()) => Ok(ls),
            Err(e) => Err(e),
        }
    }

    /// Switches on the options of the bundles `args` (`-l`, `-a`, `-F`, in
    /// any combination). The first letter that is none of them is reported.
    pub fn parse_flags(&mut self, args: Vec<String>) -> (r: Result<(), String>)
        ensures
            r is Ok <==> first_invalid(flag_letters(words(args@))) is None,
            r is Ok ==> final(self).flags == with_letters(old(self).flags, flag_letters(words(args@))),
            r matches Err(m) ==> m@ == invalid_option_text(
                first_invalid(flag_letters(words(args@)))->Some_0,
            ),
            final(self).current_path == old(self).current_path,
            final(self).targets == old(self).targets,
            final(self).targets_len == old(self).targets_len,
            final(self).target_args == old(self).target_args,
    {
        let letters = collect_letters(&args);
        let ghost all = letters@;
        let mut i: usize = 0;
        assert(all.subrange(0, all.len() as int) =~= all);
        assert(all.take(0) =~= Seq::<char>::empty());
        assert(self.flags =~= with_letters(old(self).flags, all.take(0)));
        while i < letters.len()
            invariant
                i <= letters.len(),
                letters@ == all,
                all == flag_letters(words(args@)),
                first_invalid(all) == first_invalid(all.subrange(i as int, all.len() as int)),
                self.flags == with_letters(old(self).flags, all.take(i as int)),
                self.current_path == old(self).current_path,
                self.targets == old(self).targets,
                self.targets_len == old(self).targets_len,
                self.target_args == old(self).target_args,
            decreases letters.len() - i,
        {
            let ch = letters[i];
            proof {
                assert(all.subrange(i as int, all.len() as int)[0] == ch);
                assert(all.subrange(i as int, all.len() as int).drop_first() =~= all.subrange(
                    i as int + 1,
                    all.len() as int,
                ));
                assert(all.take(i as int + 1) =~= all.take(i as int).push(ch));
            }
            if ch == 'l' {
                self.flags.long = true;
            } else if ch == 'a' {
                self.flags.all = true;
            } else if ch == 'F' {
                self.flags.classify = true;
            } else {
                let mut m = String::new();
                push_all(&mut m, "ls: invalid option -- '");
                m.push(ch);
                push_all(&mut m, "'");
                assert(m@ =~= invalid_option_text(ch));
                assert(first_invalid(all.subrange(i as int, all.len() as int)) == Some(ch));
                return Err(m);
            }
            proof {
                let t = all.take(i as int + 1);
                assert(t.contains('l') == (all.take(i as int).contains('l') || ch == 'l')) by {
                    if ch == 'l' { assert(t[i as int] == 'l'); }
                    if all.take(i as int).contains('l') {
                        let k = choose|k: int| 0 <= k < i && all.take(i as int)[k] == 'l';
                        assert(t[k] == 'l');
                    }
                }
                assert(t.contains('a') == (all.take(i as int).contains('a') || ch == 'a')) by {
                    if ch == 'a' { assert(t[i as int] == 'a'); }
                    if all.take(i as int).contains('a') {
                        let k = choose|k: int| 0 <= k < i && all.take(i as int)[k] == 'a';
                        assert(t[k] == 'a');
                    }
                }
                assert(t.contains('F') == (all.take(i as int).contains('F') || ch == 'F')) by {
                    if ch == 'F' { assert(t[i as int] == 'F'); }
                    if all.take(i as int).contains('F') {
                        let k = choose|k: int| 0 <= k < i && all.take(i as int)[k] == 'F';
                        assert(t[k] == 'F');
                    }
                }
            }
            i = i + 1;
        }
        assert(all.take(i as int) =~= all);
        Ok(())
    }

    /// `path` made absolute against the current directory.
    pub fn absolute_path(&self, path: String) -> (r: String)
        ensures
            r@ == absolute_text(self.current_path@, path@),
    {
        let p = to_chars(path.as_str());
        if p.len() > 0 && p[0] == '/' {
            path
        } else {
            let mut r = from_chars(&to_chars(self.current_path.as_str()));
            push_all(&mut r, "/");
            push_all(&mut r, path.as_str());
            r
        }
    }

    /// The (name, absolute path) pairs to look up: the current directory as
    /// `.` where no path was given, else each path argument.
    pub fn target_requests(&self) -> (r: Vec<(String, String)>)
        ensures
            pair_chars(r@) == target_requests_of(self.current_path@, words(self.target_args@)),
    {
        let mut r: Vec<(String, String)> = Vec::new();
        if self.target_args.len() == 0 {
            let mut p = from_chars(&to_chars(self.current_path.as_str()));
            push_all(&mut p, "/.");
            let d = from_chars(&to_chars("."));
            r.push((d, p));
            assert(pair_chars(r@) =~= target_requests_of(self.current_path@, words(self.target_args@)));
            return r;
        }
        let mut i: usize = 0;
        while i < self.target_args.len()
            invariant
                i <= self.target_args.len(),
                pair_chars(r@) == resolved(self.current_path@, words(self.target_args@).take(i as int)),
            decreases self.target_args.len() - i,
        {
            let a = self.target_args[i].clone();
            let abs = self.absolute_path(self.target_args[i].clone());
            let ghost prev = r@;
            r.push((a, abs));
            proof {
                let w = words(self.target_args@);
                assert(w.take(i as int + 1).drop_last() =~= w.take(i as int));
                assert(pair_chars(r@) =~= pair_chars(prev).push((w[i as int], absolute_text(self.current_path@, w[i as int]))));
            }
            i = i + 1;
        }
        assert(words(self.target_args@).take(i as int) =~= words(self.target_args@));
        r
    }

    /// Adds the targets that were found to those held, and puts them all in
    /// listing order: every file before every directory, each group by name.
    pub fn parse_targets(&mut self, found: Vec<Target>)
        ensures
            final(self).targets@.to_multiset() == (old(self).targets@ + found@).to_multiset(),
            ordered(final(self).targets@),
            forall|i: int, j: int|
                0 <= i < j < final(self).targets@.len() && #[trigger] final(self).targets@[i].is_dir()
                    ==> #[trigger] final(self).targets@[j].is_dir(),
            forall|i: int, j: int|
                0 <= i < j < final(self).targets@.len() && #[trigger] final(self).targets@[i].is_dir()
                    == #[trigger] final(self).targets@[j].is_dir() ==> chars_le(
                    final(self).targets@[i].0@,
                    final(self).targets@[j].0@,
                ),
            final(self).current_path == old(self).current_path,
            final(self).flags == old(self).flags,
            final(self).targets_len == old(self).targets_len,
            final(self).target_args == old(self).target_args,
    {
        let mut all: Vec<Target> = Vec::new();
        std::mem::swap(&mut all, &mut self.targets);
        let mut rest = found;
        all.append(&mut rest);
        self.targets = sort_listing(all);
        assert forall|i: int, j: int|
            0 <= i < j < self.targets@.len() && #[trigger] self.targets@[i].is_dir()
                implies #[trigger] self.targets@[j].is_dir() by {
            assert(self.targets@[i].precedes(&self.targets@[j]));
        }
        assert forall|i: int, j: int|
            0 <= i < j < self.targets@.len() && #[trigger] self.targets@[i].is_dir()
                == #[trigger] self.targets@[j].is_dir() implies chars_le(
                self.targets@[i].0@,
                self.targets@[j].0@,
            ) by {
            assert(self.targets@[i].precedes(&self.targets@[j]));
        }
    }
}

/// The option letters of the bundles `args`.
fn collect_letters(args: &Vec<String>) -> (r: Vec<char>)
    ensures
        r@ == flag_letters(words(args@)),
{
    let mut r: Vec<char> = Vec::new();
    let mut i: usize = 0;
    while i < args.len()
        invariant
            i <= args.len(),
            r@ == flag_letters(words(args@).take(i as int)),
        decreases args.len() - i,
    {
        let chars = to_chars(args[i].as_str());
        let ghost before = r@;
        if chars.len() > 0 {
            let mut k: usize = 1;
            while k < chars.len()
                invariant
                    1 <= k <= chars.len(),
                    r@ == before + chars@.subrange(1, k as int),
                decreases chars.len() - k,
            {
                r.push(chars[k]);
                assert(chars@.subrange(1, k as int + 1) =~= chars@.subrange(1, k as int).push(chars@[k as int]));
                k = k + 1;
            }
            assert(chars@.subrange(1, chars.len() as int) =~= letters_of(chars@));
        } else {
            assert(r@ =~= before + letters_of(chars@));
        }
        proof {
            assert(words(args@).take(i as int + 1).drop_last() =~= words(args@).take(i as int));
            assert(words(args@)[i as int] == chars@);
        }
        i = i + 1;
    }
    assert(words(args@).take(i as int) =~= words(args@));
    r
}

/// Whether a target is expanded into its directory's entries: a directory
/// is; a symbolic link only where it resolves to a directory, `-F` or `-l`
/// is given, and the name given ends with `/`.
pub open spec fn expands_spec(t: Target, flags: Flags) -> bool {
    ||| t.1.kind() == EntityType::Dir
    ||| {
        &&& t.1.kind() == EntityType::SymLink
        &&& t.1.link_mode matches Some(m) && file_type_of(m) == EntityType::Dir
        &&& flags.classify || flags.long
        &&& t.0@.len() > 0 && t.0@.last() == '/'
    }
}

/// The directory entries that are listed: all with `-a`, else those whose
/// name does not start with a dot.
pub open spec fn shown_children(children: Seq<Seq<char>>, all: bool) -> Seq<Seq<char>>
    decreases children.len(),
{
    if children.len() == 0 {
        Seq::empty()
    } else {
        let rest = shown_children(children.drop_last(), all);
        let c = children.last();
        if all || !(c.len() > 0 && c[0] == '.') {
            rest.push(c)
        } else {
            rest
        }
    }
}

/// Each shown child of `dir` with its path.
pub open spec fn child_requests(dir: Seq<char>, children: Seq<Seq<char>>) -> Seq<(Seq<char>, Seq<char>)>
    decreases children.len(),
{
    if children.len() == 0 {
        Seq::empty()
    } else {
        child_requests(dir, children.drop_last()).push((children.last(), join_text(dir, children.last())))
    }
}

/// The (name, path) pairs to look up when expanding directory `dir`: with
/// `-a`, `.` and `..` first, then the shown children.
pub open spec fn entry_requests_of(dir: Seq<char>, children: Seq<Seq<char>>, all: bool) -> Seq<(Seq<char>, Seq<char>)> {
    let listed = child_requests(dir, shown_children(children, all));
    if all {
        seq![("."@, dir), (".."@, parent_text(dir))] + listed
    } else {
        listed
    }
}

/// Saturating addition.
pub open spec fn sat_add(a: u64, b: u64) -> u64 {
    if a + b > u64::MAX { u64::MAX } else { (a + b) as u64 }
}

/// The `total` of a listing: each row's allocation in 1024-byte blocks
/// (half its count of 512-byte units), summed, saturating.
pub open spec fn blocks_total(items: Seq<Entity>) -> u64
    decreases items.len(),
{
    if items.len() == 0 {
        0
    } else {
        sat_add(blocks_total(items.drop_last()), items.last().stat.blocks / 2)
    }
}

/// The rows of one target.
pub struct List {
    pub header: String,
    pub total: u64,
    pub items: Vec<Entity>,
}

impl List {
    /// An empty list under `header`.
    pub fn new(header: String) -> (r: Self)
        ensures
            r.header == header,
            r.total == 0,
            r.items@.len() == 0,
    {
        List { header, total: 0, items: Vec::new() }
    }

    /// Whether `target` is listed through its directory's entries rather
    /// than as one row.
    pub fn expands(target: &Target, flags: Flags) -> (r: bool)
        ensures
            r == expands_spec(*target, flags),
    {
        let kind = target.1.file_type();
        if kind == EntityType::Dir {
            return true;
        }
        if kind != EntityType::SymLink || !(flags.classify || flags.long) {
            return false;
        }
        let resolves_to_dir = match target.1.link_mode {
            Some(m) => get_file_type(m) == EntityType::Dir,
            None => false,
        };
        let name = to_chars(target.0.as_str());
        resolves_to_dir && name.len() > 0 && name[name.len() - 1] == '/'
    }

    /// The (name, path) pairs to look up to expand directory `dir`, given
    /// the names of its entries.
    pub fn entry_requests(dir: &str, children: &Vec<String>, flags: Flags) -> (r: Vec<(String, String)>)
        ensures
            pair_chars(r@) == entry_requests_of(dir@, words(children@), flags.all),
    {
        let mut r: Vec<(String, String)> = Vec::new();
        if flags.all {
            r.push((from_chars(&to_chars(".")), from_chars(&to_chars(dir))));
            r.push((from_chars(&to_chars("..")), get_parent(dir)));
        }
        let ghost head = pair_chars(r@);
        let mut i: usize = 0;
        while i < children.len()
            invariant
                i <= children.len(),
                pair_chars(r@) == head + child_requests(
                    dir@,
                    shown_children(words(children@).take(i as int), flags.all),
                ),
            decreases children.len() - i,
        {
            let c = to_chars(children[i].as_str());
            let ghost w = words(children@);
            proof {
                assert(w.take(i as int + 1).drop_last() =~= w.take(i as int));
                assert(w.take(i as int + 1).last() == c@);
            }
            if flags.all || !(c.len() > 0 && c[0] == '.') {
                let ghost prev = r@;
                let path = join_path(dir, children[i].as_str());
                r.push((children[i].clone(), path));
                assert(pair_chars(r@) =~= pair_chars(prev).push((c@, join_text(dir@, c@))));
                let ghost sc = shown_children(w.take(i as int), flags.all);
                assert(shown_children(w.take(i as int + 1), flags.all) == sc.push(c@));
                assert(sc.push(c@).drop_last() =~= sc);
                assert(pair_chars(r@) =~= head + child_requests(
                    dir@,
                    shown_children(w.take(i as int + 1), flags.all),
                ));
            }
            i = i + 1;
        }
        assert(words(children@).take(i as int) =~= words(children@));
        if flags.all {
            assert(pair_chars(r@) =~= entry_requests_of(dir@, words(children@), flags.all));
        } else {
            assert(pair_chars(r@) =~= entry_requests_of(dir@, words(children@), flags.all));
        }
        r
    }

    /// Adds the rows that were found: the rows held before and the new ones
    /// are sorted together by name with a leading dot set aside, and the new
    /// rows' allocation is added to `total`.
    pub fn get_items(&mut self, entries: Vec<Entity>)
        ensures
            final(self).items@.to_multiset() == (old(self).items@ + entries@).to_multiset(),
            ordered(final(self).items@),
            final(self).total == sat_add(old(self).total, blocks_total(entries@)),
            final(self).header == old(self).header,
    {
        let mut sum: u64 = 0;
        let mut i: usize = 0;
        while i < entries.len()
            invariant
                i <= entries.len(),
                sum == blocks_total(entries@.take(i as int)),
            decreases entries.len() - i,
        {
            assert(entries@.take(i as int + 1).drop_last() =~= entries@.take(i as int));
            let b = entries[i].stat.blocks / 2;
            sum = if sum > u64::MAX - b { u64::MAX } else { sum + b };
            i = i + 1;
        }
        assert(entries@.take(i as int) =~= entries@);
        self.total = if self.total > u64::MAX - sum { u64::MAX } else { self.total + sum };
        let mut all: Vec<Entity> = Vec::new();
        std::mem::swap(&mut all, &mut self.items);
        let mut rest = entries;
        all.append(&mut rest);
        self.items = sort_listing(all);
    }

    /// Adds one row that is not a directory's entry (a target listed as
    /// itself): it goes at the end, and `total` is left as it was.
    pub fn add_item(&mut self, entry: Entity)
        ensures
            final(self).items@ == old(self).items@.push(entry),
            final(self).total == old(self).total,
            final(self).header == old(self).header,
    {
        self.items.push(entry);
    }
}

/// The owner column: the user name, or the numeric id where none resolves.
pub open spec fn owner_text(e: Entity) -> Seq<char> {
    match e.owner {
        Some(n) => n@,
        None => decimal(e.stat.uid as nat),
    }
}

/// The group column: the group name, or the numeric id where none resolves.
pub open spec fn group_text(e: Entity) -> Seq<char> {
    match e.group {
        Some(n) => n@,
        None => decimal(e.stat.gid as nat),
    }
}

/// The size column: the byte count, or `major, minor` for a device.
pub open spec fn size_text(e: Entity) -> Seq<char> {
    match major_minor_of(e.kind(), e.stat.rdev) {
        Some((ma, mi)) => decimal(ma as nat) + ", "@ + decimal(mi as nat),
        None => decimal(e.stat.size as nat),
    }
}

/// The name column of the long format: a link shows where it points.
pub open spec fn long_name_text(e: Entity) -> Seq<char> {
    match e.link_target {
        Some(t) => e.name@ + " -> "@ + t@,
        None => e.name@,
    }
}

/// The classification suffix a row shows. A link shows `@`, or in the long
/// format the suffix of what it resolves to, and none where it does not
/// resolve.
pub open spec fn suffix_text(e: Entity, long: bool, classify: bool) -> Seq<char> {
    if !classify {
        ""@
    } else if e.kind() == EntityType::SymLink && e.link_target is Some {
        match e.link_mode {
            Some(m) => if long { type_suffix(file_type_of(m)) } else { type_suffix(e.kind()) },
            None => ""@,
        }
    } else {
        type_suffix(e.kind())
    }
}

/// One row of a listing, newline included.
pub open spec fn row_text(e: Entity, long: bool, classify: bool, now: i64) -> Seq<char> {
    if long {
        align_left(type_symbol(e.kind()) + permissions_text(e.stat.mode, e.has_acl), 10) + " "@
            + align_right(decimal(e.stat.nlink as nat), 4) + " "@ + align_left(owner_text(e), 8)
            + " "@ + align_left(group_text(e), 8) + " "@ + align_right(size_text(e), 8) + " "@
            + time_text(e.stat.mtime, now) + " "@ + long_name_text(e) + suffix_text(e, long, classify)
            + "\n"@
    } else {
        e.name@ + suffix_text(e, long, classify) + "\n"@
    }
}

impl Entity {
    fn suffix(&self, long: bool, classify: bool) -> (r: &'static str)
        ensures
            r@ == suffix_text(*self, long, classify),
    {
        if !classify {
            return "";
        }
        let kind = self.file_type();
        if kind == EntityType::SymLink && self.link_target.is_some() {
            match self.link_mode {
                Some(m) => {
                    if long {
                        get_file_type_symbols(get_file_type(m)).1
                    } else {
                        get_file_type_symbols(kind).1
                    }
                },
                None => "",
            }
        } else {
            get_file_type_symbols(kind).1
        }
    }

    fn owner_column(&self) -> (r: String)
        ensures
            r@ == owner_text(*self),
    {
        match &self.owner {
            Some(n) => from_chars(&to_chars(n.as_str())),
            None => crate::text::decimal_string(self.stat.uid as u64),
        }
    }

    fn group_column(&self) -> (r: String)
        ensures
            r@ == group_text(*self),
    {
        match &self.group {
            Some(n) => from_chars(&to_chars(n.as_str())),
            None => crate::text::decimal_string(self.stat.gid as u64),
        }
    }

    fn size_column(&self) -> (r: String)
        ensures
            r@ == size_text(*self),
    {
        match major_minor(self.file_type(), self.stat.rdev) {
            Some((ma, mi)) => {
                let mut s = String::new();
                push_decimal(&mut s, ma as u64);
                push_all(&mut s, ", ");
                push_decimal(&mut s, mi as u64);
                assert(s@ =~= size_text(*self));
                s
            },
            None => crate::text::decimal_string(self.stat.size),
        }
    }

    fn mode_column(&self) -> (r: String)
        ensures
            r@ == type_symbol(self.kind()) + permissions_text(self.stat.mode, self.has_acl),
    {
        let mut s = String::new();
        push_all(&mut s, get_file_type_symbols(self.file_type()).0);
        let p = get_permissions(self.stat.mode, self.has_acl);
        push_all(&mut s, p.as_str());
        s
    }

    fn push_long_name(&self, s: &mut String)
        ensures
            final(s)@ == old(s)@ + long_name_text(*self),
    {
        push_all(s, self.name.as_str());
        match &self.link_target {
            Some(t) => {
                push_all(s, " -> ");
                push_all(s, t.as_str());
                assert(s@ =~= old(s)@ + long_name_text(*self));
            },
            None => {},
        }
    }

    /// The row of this entity, newline included: the name and suffix, or in
    /// the long format type and permissions, links, owner, group, size, time
    /// and name.
    pub fn render(&self, long: bool, classify: bool, now: i64) -> (r: String)
        ensures
            r@ == row_text(*self, long, classify, now),
    {
        let mut s = String::new();
        let suffix = self.suffix(long, classify);
        if !long {
            push_all(&mut s, self.name.as_str());
            push_all(&mut s, suffix);
            push_all(&mut s, "\n");
            return s;
        }
        let mode = self.mode_column();
        push_left(&mut s, mode.as_str(), 10);
        push_all(&mut s, " ");
        let nlink = crate::text::decimal_string(self.stat.nlink);
        push_right(&mut s, nlink.as_str(), 4);
        push_all(&mut s, " ");
        let owner = self.owner_column();
        push_left(&mut s, owner.as_str(), 8);
        push_all(&mut s, " ");
        let group = self.group_column();
        push_left(&mut s, group.as_str(), 8);
        push_all(&mut s, " ");
        let size = self.size_column();
        push_right(&mut s, size.as_str(), 8);
        push_all(&mut s, " ");
        let time = get_modified_time(self.stat.mtime, now);
        push_all(&mut s, time.as_str());
        push_all(&mut s, " ");
        self.push_long_name(&mut s);
        push_all(&mut s, suffix);
        push_all(&mut s, "\n");
        assert(s@ =~= row_text(*self, long, classify, now));
        s
    }
}

/// The rows of `items`, in order.
pub open spec fn rows_text(items: Seq<Entity>, long: bool, classify: bool, now: i64) -> Seq<char>
    decreases items.len(),
{
    if items.len() == 0 {
        Seq::empty()
    } else {
        rows_text(items.drop_last(), long, classify, now) + row_text(items.last(), long, classify, now)
    }
}

/// The text printed for the target at `index` of the listing order: a blank
/// line before a directory that is not first, a `name:` header for a
/// directory when several paths were given, a `total` line for a directory
/// in the long format, then the rows.
pub open spec fn section_text(
    targets_len: nat,
    flags: Flags,
    index: nat,
    is_dir: bool,
    list: List,
    now: i64,
) -> Seq<char> {
    (if index > 0 && is_dir { "\n"@ } else { ""@ })
        + (if targets_len > 1 && is_dir { list.header@ + ":\n"@ } else { ""@ })
        + (if flags.long && is_dir { "total "@ + decimal(list.total as nat) + "\n"@ } else { ""@ })
        + rows_text(list.items@, flags.long, flags.classify, now)
}

impl LsConfig {
    /// The text of the target at `index` of the listing order, `list`
    /// holding its rows and `now` the current time.
    pub fn render_section(&self, index: usize, target: &Target, list: &List, now: i64) -> (r: String)
        ensures
            r@ == section_text(
                self.targets_len as nat,
                self.flags,
                index as nat,
                target.is_dir(),
                *list,
                now,
            ),
    {
        let is_dir = target.1.file_type() == EntityType::Dir;
        let mut s = String::new();
        proof {
            reveal_strlit("");
        }
        if index > 0 && is_dir {
            push_all(&mut s, "\n");
        }
        let ghost p1 = s@;
        assert(p1 =~= (if index > 0 && is_dir { "\n"@ } else { ""@ }));
        if self.targets_len > 1 && is_dir {
            push_all(&mut s, list.header.as_str());
            push_all(&mut s, ":\n");
        }
        let ghost p2 = s@;
        assert(p2 =~= p1 + (if self.targets_len > 1 && is_dir { list.header@ + ":\n"@ } else { ""@ }));
        if self.flags.long && is_dir {
            push_all(&mut s, "total ");
            push_decimal(&mut s, list.total);
            push_all(&mut s, "\n");
        }
        let ghost head = s@;
        assert(head =~= p2 + (if self.flags.long && is_dir { "total "@ + decimal(list.total as nat) + "\n"@ } else { ""@ }));
        let mut i: usize = 0;
        while i < list.items.len()
            invariant
                i <= list.items.len(),
                s@ == head + rows_text(list.items@.take(i as int), self.flags.long, self.flags.classify, now),
            decreases list.items.len() - i,
        {
            let row = list.items[i].render(self.flags.long, self.flags.classify, now);
            push_all(&mut s, row.as_str());
            assert(list.items@.take(i as int + 1).drop_last() =~= list.items@.take(i as int));
            assert(s@ =~= head + rows_text(list.items@.take(i as int + 1), self.flags.long, self.flags.classify, now));
            i = i + 1;
        }
        assert(list.items@.take(i as int) =~= list.items@);
        s
    }
}

/// The OS error text without its ` (os error N)` suffix.
pub open spec fn os_text(text: Seq<char>, code: i32) -> Seq<char> {
    let suffix = " (os error "@ + signed_decimal(code as int) + ")"@;
    if ends_with(text, suffix) {
        text.subrange(0, text.len() - suffix.len())
    } else {
        text
    }
}

/// The report for a target or entry that could not be looked up; errors
/// that carry no OS error code are not reported.
pub open spec fn access_error_text(entry: Seq<char>, text: Seq<char>, code: Option<i32>) -> Option<Seq<char>> {
    match code {
        Some(c) => Some("ls: cannot access '"@ + entry + "': "@ + os_text(text, c)),
        None => None,
    }
}

/// The report for `entry`, which could not be looked up: `text` is the OS
/// error's message and `code` its raw OS error code.
pub fn access_error(entry: &str, text: &str, code: Option<i32>) -> (r: Option<String>)
    ensures
        opt_chars(r) == access_error_text(entry@, text@, code),
{
    let c = match code {
        Some(c) => c,
        None => {
            return None;
        },
    };
    let mut suffix = String::new();
    push_all(&mut suffix, " (os error ");
    push_signed(&mut suffix, c as i64);
    push_all(&mut suffix, ")");
    let sfx = to_chars(suffix.as_str());
    let t = to_chars(text);
    let mut m = String::new();
    push_all(&mut m, "ls: cannot access '");
    push_all(&mut m, entry);
    push_all(&mut m, "': ");
    let ghost head = m@;
    if vec_ends_with(&t, &sfx) {
        let mut i: usize = 0;
        let n = t.len() - sfx.len();
        while i < n
            invariant
                i <= n <= t.len(),
                m@ == head + t@.take(i as int),
            decreases n - i,
        {
            m.push(t[i]);
            assert(t@.take(i as int + 1) =~= t@.take(i as int).push(t@[i as int]));
            i = i + 1;
        }
        assert(t@.take(n as int) =~= t@.subrange(0, n as int));
    } else {
        push_all(&mut m, text);
    }
    assert(m@ =~= access_error_text(entry@, text@, code)->Some_0);
    Some(m)
}

} // verus!
