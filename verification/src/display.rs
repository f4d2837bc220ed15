//! What the interface shows: byte sizes, durations, dates, state labels,
//! shortened texts, padding, and the sizes of the list and its panes.
use vstd::prelude::*;
use crate::bindings::{format_utc_seconds, utc_date_text};
use crate::models::{SortConfig, SortDirection, SortField};
use crate::text::{
    at_char_boundary, byte_prefix, byte_prefix_of, decimal, lemma_encode_push,
    lemma_utf8_len_concat, owned, push_decimal, text_equals, utf8_len,
};
use vstd::utf8::encode_utf8;

verus! {

/// `n / d` rounded to the nearest integer, ties to the even one.
pub open spec fn round_half_even(n: nat, d: nat) -> nat
    recommends
        d > 0,
{
    let q = n / d;
    let r = n % d;
    if 2 * r > d {
        q + 1
    } else if 2 * r < d {
        q
    } else if q % 2 == 0 {
        q
    } else {
        q + 1
    }
}

/// The power of two by which a `u64` value is rounded when it is converted
/// to `f64` (53 significant bits).
pub open spec fn f64_step(n: nat) -> nat {
    if n < 0x20000000000000 { 1 }
    else if n < 0x40000000000000 { 2 }
    else if n < 0x80000000000000 { 4 }
    else if n < 0x100000000000000 { 8 }
    else if n < 0x200000000000000 { 16 }
    else if n < 0x400000000000000 { 32 }
    else if n < 0x800000000000000 { 64 }
    else if n < 0x1000000000000000 { 128 }
    else if n < 0x2000000000000000 { 256 }
    else if n < 0x4000000000000000 { 512 }
    else if n < 0x8000000000000000 { 1024 }
    else { 2048 }
}

/// The value of `n as f64`: nearest to `n` with 53 significant bits, ties
/// to even.
pub open spec fn as_f64(n: nat) -> nat {
    round_half_even(n, f64_step(n)) * f64_step(n)
}

/// `v` written with two decimal digits, left-padded with `0`.
pub open spec fn two_digits(v: nat) -> Seq<char> {
    if v < 10 { seq!['0'] + decimal(v) } else { decimal(v) }
}

/// A value in hundredths written with two decimals.
pub open spec fn hundredths_text(x: nat) -> Seq<char> {
    decimal(x / 100) + "."@ + two_digits(x % 100)
}

/// A value in tenths written with one decimal.
pub open spec fn tenths_text(x: nat) -> Seq<char> {
    decimal(x / 10) + "."@ + decimal(x % 10)
}

/// One kibibyte in bytes.
pub const KIB: u64 = 1024;
/// One mebibyte in bytes.
pub const MIB: u64 = 1048576;
/// One gibibyte in bytes.
pub const GIB: u64 = 1073741824;
/// One tebibyte in bytes.
pub const TIB: u64 = 1099511627776;

/// A byte count as the details pane shows it: in TiB or GiB with two
/// decimals, in MiB with one, in KiB with none, or in bytes; each rounded
/// as `format!` rounds the `f64` quotient (ties to even).
pub open spec fn bytes_text(b: nat) -> Seq<char> {
    if b >= TIB {
        hundredths_text(round_half_even(as_f64(b) * 100, TIB as nat)) + " TiB"@
    } else if b >= GIB {
        hundredths_text(round_half_even(b * 100, GIB as nat)) + " GiB"@
    } else if b >= MIB {
        tenths_text(round_half_even(b * 10, MIB as nat)) + " MiB"@
    } else if b >= KIB {
        decimal(round_half_even(b, KIB as nat)) + " KiB"@
    } else {
        decimal(b) + " B"@
    }
}

/// `round_half_even` on machine integers.
fn round_even(n: u128, d: u128) -> (r: u128)
    requires
        d > 0,
        n / d < u128::MAX,
    ensures
        r as nat == round_half_even(n as nat, d as nat),
        r <= n / d + 1,
{
    let q = n / d;
    let r = n % d;
    if r > d - r {
        q + 1
    } else if r < d - r {
        q
    } else if q % 2 == 0 {
        q
    } else {
        q + 1
    }
}

/// `f64_step` on a machine integer.
fn f64_step_of(n: u64) -> (r: u128)
    ensures
        r as nat == f64_step(n as nat),
        r >= 1,
{
    if n < 0x20000000000000 { 1 }
    else if n < 0x40000000000000 { 2 }
    else if n < 0x80000000000000 { 4 }
    else if n < 0x100000000000000 { 8 }
    else if n < 0x200000000000000 { 16 }
    else if n < 0x400000000000000 { 32 }
    else if n < 0x800000000000000 { 64 }
    else if n < 0x1000000000000000 { 128 }
    else if n < 0x2000000000000000 { 256 }
    else if n < 0x4000000000000000 { 512 }
    else if n < 0x8000000000000000 { 1024 }
    else { 2048 }
}

fn push_hundredths(out: &mut String, x: u128)
    requires
        x / 100 <= u64::MAX,
    ensures
        final(out)@ == old(out)@ + hundredths_text(x as nat),
{
    push_decimal(out, (x / 100) as u64);
    out.append(".");
    let f = (x % 100) as u64;
    if f < 10 {
        out.append("0");
    }
    push_decimal(out, f);
    proof {
        if f < 10 {
            assert(old(out)@ + decimal((x / 100) as nat) + "."@ + "0"@ + decimal(f as nat) =~= old(out)@
                + hundredths_text(x as nat)) by {
                reveal_strlit("0");
            }
        } else {
            assert(old(out)@ + decimal((x / 100) as nat) + "."@ + decimal(f as nat) =~= old(out)@
                + hundredths_text(x as nat));
        }
    }
}

/// A byte count for display (`bytes_text`).
pub fn format_bytes(bytes: u64) -> (r: String)
    ensures
        r@ == bytes_text(bytes as nat),
{
    let b = bytes as u128;
    let mut out = String::new();
    if b >= 1099511627776 {
        let step = f64_step_of(bytes);
        let q = round_even(b, step);
        assert(q * step <= b + step) by (nonlinear_arith)
            requires
                q <= b / step + 1,
                step >= 1,
                b >= 0;
        let f = q * step;
        assert(f * 100 / 1099511627776 <= 0x100000000000);
        let x = round_even(f * 100, 1099511627776);
        push_hundredths(&mut out, x);
        out.append(" TiB");
    } else if b >= 1073741824 {
        let x = round_even(b * 100, 1073741824);
        assert(b * 100 / 1073741824 <= 0x20000);
        push_hundredths(&mut out, x);
        out.append(" GiB");
    } else if b >= 1048576 {
        let x = round_even(b * 10, 1048576);
        push_decimal(&mut out, (x / 10) as u64);
        out.append(".");
        push_decimal(&mut out, (x % 10) as u64);
        out.append(" MiB");
    } else if b >= 1024 {
        let x = round_even(b, 1024);
        push_decimal(&mut out, x as u64);
        out.append(" KiB");
    } else {
        push_decimal(&mut out, bytes);
        out.append(" B");
    }
    assert(out@ =~= bytes_text(bytes as nat));
    out
}


/// A duration as the details pane shows it: days, hours and minutes, with
/// leading zero units left out.
pub open spec fn duration_text(secs: nat) -> Seq<char> {
    let days = secs / 86400;
    let hours = (secs % 86400) / 3600;
    let mins = (secs % 3600) / 60;
    if days > 0 {
        decimal(days) + "d "@ + decimal(hours) + "h "@ + decimal(mins) + "m"@
    } else if hours > 0 {
        decimal(hours) + "h "@ + decimal(mins) + "m"@
    } else {
        decimal(mins) + "m"@
    }
}

/// A duration for display (`duration_text`).
pub fn format_duration(secs: u64) -> (r: String)
    ensures
        r@ == duration_text(secs as nat),
{
    let days = secs / 86400;
    let hours = (secs % 86400) / 3600;
    let mins = (secs % 3600) / 60;
    let mut out = String::new();
    if days > 0 {
        push_decimal(&mut out, days);
        out.append("d ");
        push_decimal(&mut out, hours);
        out.append("h ");
        push_decimal(&mut out, mins);
        out.append("m");
    } else if hours > 0 {
        push_decimal(&mut out, hours);
        out.append("h ");
        push_decimal(&mut out, mins);
        out.append("m");
    } else {
        push_decimal(&mut out, mins);
        out.append("m");
    }
    assert(out@ =~= duration_text(secs as nat));
    out
}

/// The label shown for a qBittorrent torrent state; unknown states as they are.
pub open spec fn state_label(s: Seq<char>) -> Seq<char> {
    if s == "uploading"@ { "Seeding"@ }
    else if s == "stalledUP"@ { "Seeding (stalled)"@ }
    else if s == "downloading"@ { "Downloading"@ }
    else if s == "stalledDL"@ { "Downloading (stalled)"@ }
    else if s == "pausedUP"@ || s == "stoppedUP"@ { "Paused (complete)"@ }
    else if s == "pausedDL"@ || s == "stoppedDL"@ { "Paused"@ }
    else if s == "checkingUP"@ || s == "checkingDL"@ { "Checking"@ }
    else if s == "moving"@ { "Moving"@ }
    else if s == "error"@ { "Error"@ }
    else if s == "missingFiles"@ { "Missing files"@ }
    else { s }
}

/// The label for a torrent state (`state_label`).
pub fn torrent_state_label(state: &str) -> (r: String)
    ensures
        r@ == state_label(state@),
{
    let label = if text_equals(state, "uploading") { "Seeding" }
    else if text_equals(state, "stalledUP") { "Seeding (stalled)" }
    else if text_equals(state, "downloading") { "Downloading" }
    else if text_equals(state, "stalledDL") { "Downloading (stalled)" }
    else if text_equals(state, "pausedUP") || text_equals(state, "stoppedUP") { "Paused (complete)" }
    else if text_equals(state, "pausedDL") || text_equals(state, "stoppedDL") { "Paused" }
    else if text_equals(state, "checkingUP") || text_equals(state, "checkingDL") { "Checking" }
    else if text_equals(state, "moving") { "Moving" }
    else if text_equals(state, "error") { "Error" }
    else if text_equals(state, "missingFiles") { "Missing files" }
    else { state };
    owned(label)
}

/// `max_len - 3`, or 0.
pub open spec fn less_three(n: int) -> int {
    if n >= 3 { n - 3 } else { 0 }
}

/// A text kept within `max_len` bytes: where longer, its first
/// `max_len - 3` bytes and `...`.
pub open spec fn truncated(s: Seq<char>, max_len: int) -> Seq<char> {
    if utf8_len(s) <= max_len { s } else { byte_prefix_of(s, less_three(max_len)) + "..."@ }
}

/// Shortens a text to at most `max_len` bytes (`truncated`).
pub fn truncate_string(s: &str, max_len: usize) -> (r: String)
    requires
        utf8_len(s@) <= usize::MAX,
        utf8_len(s@) > max_len ==> at_char_boundary(s@, less_three(max_len as int)),
    ensures
        r@ == truncated(s@, max_len as int),
{
    if s.len() <= max_len {
        owned(s)
    } else {
        let keep: usize = if max_len >= 3 { max_len - 3 } else { 0 };
        let mut r = byte_prefix(s, keep);
        r.append("...");
        r
    }
}

/// A shortened text fits its limit: for a limit of at least 3 bytes, where
/// the cut falls between characters, the result takes at most that many
/// bytes.
pub proof fn law_truncated_fits(s: Seq<char>, max_len: int)
    requires
        max_len >= 3,
        utf8_len(s) > max_len ==> at_char_boundary(s, max_len - 3),
    ensures
        utf8_len(truncated(s, max_len)) <= max_len,
{
    if utf8_len(s) > max_len {
        let j = choose|j: int| 0 <= j <= s.len() && utf8_len(s.take(j)) == max_len - 3;
        assert(byte_prefix_of(s, max_len - 3) == s.take(j));
        reveal_strlit("...");
        let dots = "..."@;
        assert(dots =~= Seq::<char>::empty().push('.').push('.').push('.'));
        lemma_encode_push(Seq::<char>::empty(), '.');
        lemma_encode_push(Seq::<char>::empty().push('.'), '.');
        lemma_encode_push(Seq::<char>::empty().push('.').push('.'), '.');
        assert(encode_utf8(Seq::<char>::empty()) =~= Seq::<u8>::empty());
        assert(utf8_len(dots) == 3);
        lemma_utf8_len_concat(s.take(j), dots);
    }
}

/// A Unix time as a UTC date and time, `-` for times not after the epoch
/// or that chrono cannot represent.
pub open spec fn date_text(ts: int) -> Seq<char> {
    if ts <= 0 {
        "-"@
    } else {
        match utc_date_text(ts) {
            Some(t) => t,
            None => "-"@,
        }
    }
}

/// A Unix time for display (`date_text`).
pub fn timestamp_to_date(timestamp: i64) -> (r: String)
    ensures
        r@ == date_text(timestamp as int),
{
    if timestamp <= 0 {
        return owned("-");
    }
    match format_utc_seconds(timestamp) {
        Some(t) => t,
        None => owned("-"),
    }
}

/// The arrow shown beside the sorted column, blank for the others.
pub open spec fn indicator(sort: SortConfig, field: SortField) -> Seq<char> {
    if sort.field == field {
        if sort.direction == SortDirection::Asc { " \u{2191}"@ } else { " \u{2193}"@ }
    } else {
        "  "@
    }
}

/// The sort arrow for a column header.
pub fn sort_indicator(sort: SortConfig, field: SortField) -> (r: &'static str)
    ensures
        r@ == indicator(sort, field),
{
    if sort.field == field {
        if sort.direction == SortDirection::Asc { " \u{2191}" } else { " \u{2193}" }
    } else {
        "  "
    }
}

/// A text padded with spaces to at least `width` characters.
pub open spec fn padded(s: Seq<char>, width: nat) -> Seq<char> {
    if s.len() >= width { s } else { s + Seq::new((width - s.len()) as nat, |i: int| ' ') }
}

/// Pads a text with spaces to at least `width` characters (as `{:<width}` does).
pub fn pad_right(s: String, width: usize) -> (r: String)
    ensures
        r@ == padded(s@, width as nat),
{
    let n = s.unicode_len();
    let mut r = s;
    let mut k = n;
    let ghost start = r@;
    while k < width
        invariant
            n == start.len(),
            n <= k <= width || (k == n && n >= width),
            r@ == start + Seq::new((k - n) as nat, |i: int| ' '),
        decreases width - k,
    {
        crate::bindings::push_char(&mut r, ' ');
        k = k + 1;
        assert(r@ =~= start + Seq::new((k - n) as nat, |i: int| ' '));
    }
    if n >= width {
        assert(r@ =~= start);
    }
    r
}

/// The name column's width for a list `width` columns wide (at least 10).
pub fn name_column_width(width: u16) -> (r: usize)
    ensures
        r == if width as int > 44 && width as int - 44 > 10 { width as int - 44 } else { 10 },
{
    let w = width as usize;
    let rest = if w > 44 { w - 44 } else { 0 };
    if rest > 10 { rest } else { 10 }
}

/// The height of the details area under a list `height` rows high: half
/// of it up to 20 rows, at least 2.
pub fn details_height(height: u16) -> (r: u16)
    ensures
        height <= 4 ==> r == 2,
        height > 4 ==> r == if height / 2 > 20 { 20 } else { height / 2 },
{
    if height <= 4 {
        2
    } else {
        let half = height / 2;
        let capped = if half > 20 { 20 } else { half };
        if capped > 2 { capped } else { 2 }
    }
}

/// How many rows of torrents fit under the list header (at least 1).
pub fn visible_rows(list_height: u16) -> (r: usize)
    ensures
        r == if list_height > 3 { list_height as int - 3 } else { 1 },
{
    if list_height > 3 { (list_height - 3) as usize } else { 1 }
}

/// The help text's scroll position for `total_lines` lines in an area
/// `area_height` rows high.
pub fn help_offset(help_scroll: usize, total_lines: usize, area_height: u16) -> (r: usize)
    ensures
        ({
            let visible = if area_height >= 2 { area_height - 2 } else { 0 };
            let max_scroll = if total_lines > visible { total_lines - visible } else { 0 };
            r == if help_scroll < max_scroll { help_scroll as int } else { max_scroll }
        }),
{
    let visible: usize = if area_height >= 2 { (area_height - 2) as usize } else { 0 };
    let max_scroll = if total_lines > visible { total_lines - visible } else { 0 };
    if help_scroll < max_scroll { help_scroll } else { max_scroll }
}

/// A file name as the files pane shows it: the part after the first `/`,
/// or the whole name where it has none.
pub open spec fn file_label(name: Seq<char>) -> Seq<char> {
    if exists|i: int| 0 <= i < name.len() && name[i] == '/' {
        name.skip((choose|i: int| 0 <= i < name.len() && name[i] == '/' && forall|j: int| 0 <= j < i ==> name[j] != '/') + 1)
    } else {
        name
    }
}

/// The file name shown in the files pane (`file_label`).
pub fn file_display_name(name: &str) -> (r: String)
    ensures
        r@ == file_label(name@),
{
    let v = crate::text::chars_of(name);
    let mut i: usize = 0;
    while i < v.len()
        invariant
            v@ == name@,
            i <= v.len(),
            forall|j: int| 0 <= j < i ==> v@[j] != '/',
        decreases v.len() - i,
    {
        if v[i] == '/' {
            proof {
                let c = choose|k: int| 0 <= k < name@.len() && name@[k] == '/' && forall|j: int| 0 <= j < k ==> name@[j] != '/';
                assert(0 <= i < name@.len() && name@[i as int] == '/' && forall|j: int| 0 <= j < i ==> name@[j] != '/');
                if c < i {
                    assert(name@[c] != '/');
                } else if c > i {
                    assert(name@[i as int] != '/');
                }
            }
            let r = crate::text::string_of_range(&v, i + 1, v.len());
            assert(r@ =~= name@.skip(i + 1));
            return r;
        }
        i = i + 1;
    }
    owned(name)
}

/// The password as the login form shows it: `n` stars for a password of
/// `n` bytes.
pub open spec fn mask_of(n: nat) -> Seq<char> {
    Seq::new(n, |i: int| '*')
}

/// The password as the login form shows it: one `*` per byte.
pub fn masked(password: &str) -> (r: String)
    ensures
        r@ == mask_of(password.len() as nat),
{
    let n = password.len();
    let mut r = String::new();
    let mut k: usize = 0;
    while k < n
        invariant
            k <= n,
            r@ == Seq::new(k as nat, |i: int| '*'),
        decreases n - k,
    {
        crate::bindings::push_char(&mut r, '*');
        k = k + 1;
        assert(r@ =~= Seq::new(k as nat, |i: int| '*'));
    }
    r
}

/// The masked password shows no character of the password: two passwords
/// of the same byte length are shown alike, as stars only.
pub proof fn law_mask_shows_only_the_length(a: &str, b: &str)
    requires
        a.len() == b.len(),
    ensures
        mask_of(a.len() as nat) == mask_of(b.len() as nat),
        forall|i: int| 0 <= i < mask_of(a.len() as nat).len() ==> #[trigger] mask_of(a.len() as nat)[i] == '*',
{
}

} // verus!
