//! Detect whether a physical keyboard is attached, and decide how to toggle the
//! OS virtual keyboard.
//!
//! Reading the device tables and spawning processes is left to the caller: this
//! module takes what was read and says what it means, or what to run next.
use vstd::prelude::*;

use crate::text::{
    chars_of, contains, contains_seq, occurs_at, starts_with, starts_with_seq, unicode_uppercase, uppercase,
    utf8_len, utf8_len_exceeds,
};

verus! {

broadcast use vstd::string::group_string_axioms;

// ─── Splitting text ─────────────────────────────────────────────────────────

/// The pieces of `s` between occurrences of a blank line ("\n\n"), as
/// `str::split("\n\n")` yields them, scanning from `pos` with the current piece
/// beginning at `start`.
pub open spec fn blocks_from(s: Seq<char>, start: int, pos: int) -> Seq<Seq<char>>
    decreases s.len() - pos,
{
    if pos + 1 >= s.len() {
        seq![s.subrange(start, s.len() as int)]
    } else if s[pos] == '\n' && s[pos + 1] == '\n' {
        seq![s.subrange(start, pos)] + blocks_from(s, pos + 2, pos + 2)
    } else {
        blocks_from(s, start, pos + 1)
    }
}

/// The blank-line separated blocks of `s` (`s.split("\n\n")`).
pub open spec fn text_blocks(s: Seq<char>) -> Seq<Seq<char>> {
    blocks_from(s, 0, 0)
}

/// A line without the carriage return of a "\r\n" ending.
pub open spec fn strip_cr(l: Seq<char>) -> Seq<char> {
    if l.len() > 0 && l.last() == '\r' {
        l.drop_last()
    } else {
        l
    }
}

/// The lines of `s` as `str::lines` yields them, scanning from `pos` with the
/// current line beginning at `start`.
pub open spec fn lines_from(s: Seq<char>, start: int, pos: int) -> Seq<Seq<char>>
    decreases s.len() - pos,
{
    if pos >= s.len() {
        if start < s.len() {
            seq![s.subrange(start, s.len() as int)]
        } else {
            seq![]
        }
    } else if s[pos] == '\n' {
        seq![strip_cr(s.subrange(start, pos))] + lines_from(s, pos + 1, pos + 1)
    } else {
        lines_from(s, start, pos + 1)
    }
}

/// The lines of `s` (`s.lines()`).
pub open spec fn text_lines(s: Seq<char>) -> Seq<Seq<char>> {
    lines_from(s, 0, 0)
}

/// A copy of `s[a..b]`.
fn copy_range(s: &Vec<char>, a: usize, b: usize) -> (r: Vec<char>)
    requires
        a <= b <= s@.len(),
    ensures
        r@ == s@.subrange(a as int, b as int),
{
    let mut r: Vec<char> = Vec::new();
    let mut i: usize = a;
    while i < b
        invariant
            a <= i <= b <= s@.len(),
            r@ == s@.subrange(a as int, i as int),
        decreases b - i,
    {
        r.push(s[i]);
        i += 1;
        assert(r@ =~= s@.subrange(a as int, i as int));
    }
    r
}

/// The blank-line separated blocks of `s`.
pub fn split_blocks(s: &Vec<char>) -> (r: Vec<Vec<char>>)
    ensures
        r@.len() == text_blocks(s@).len(),
        forall|i: int| 0 <= i < r@.len() ==> #[trigger] r@[i]@ == text_blocks(s@)[i],
{
    let mut r: Vec<Vec<char>> = Vec::new();
    let ghost mut done: Seq<Seq<char>> = seq![];
    let mut start: usize = 0;
    let mut pos: usize = 0;
    while s.len() - pos >= 2
        invariant
            start <= pos <= s@.len(),
            s@.len() == s.len(),
            r@.len() == done.len(),
            forall|i: int| 0 <= i < r@.len() ==> #[trigger] r@[i]@ == done[i],
            done + blocks_from(s@, start as int, pos as int) == text_blocks(s@),
        decreases s@.len() - pos,
    {
        if s[pos] == '\n' && s[pos + 1] == '\n' {
            let piece = copy_range(s, start, pos);
            proof {
                assert(done.push(piece@) + blocks_from(s@, pos + 2, pos + 2) =~= done + blocks_from(
                    s@,
                    start as int,
                    pos as int,
                ));
                done = done.push(piece@);
            }
            r.push(piece);
            pos = pos + 2;
            start = pos;
        } else {
            pos = pos + 1;
        }
    }
    let piece = copy_range(s, start, s.len());
    proof {
        assert(done.push(piece@) =~= done + blocks_from(s@, start as int, pos as int));
        done = done.push(piece@);
    }
    r.push(piece);
    r
}

/// The lines of `s`.
pub fn split_lines(s: &Vec<char>) -> (r: Vec<Vec<char>>)
    ensures
        r@.len() == text_lines(s@).len(),
        forall|i: int| 0 <= i < r@.len() ==> #[trigger] r@[i]@ == text_lines(s@)[i],
{
    let mut r: Vec<Vec<char>> = Vec::new();
    let ghost mut done: Seq<Seq<char>> = seq![];
    let mut start: usize = 0;
    let mut pos: usize = 0;
    while pos < s.len()
        invariant
            start <= pos <= s@.len(),
            s@.len() == s.len(),
            r@.len() == done.len(),
            forall|i: int| 0 <= i < r@.len() ==> #[trigger] r@[i]@ == done[i],
            done + lines_from(s@, start as int, pos as int) == text_lines(s@),
        decreases s@.len() - pos,
    {
        if s[pos] == '\n' {
            let mut end: usize = pos;
            if end > start && s[end - 1] == '\r' {
                end = end - 1;
            }
            let piece = copy_range(s, start, end);
            proof {
                assert(piece@ =~= strip_cr(s@.subrange(start as int, pos as int)));
                assert(done.push(piece@) + lines_from(s@, pos + 1, pos + 1) =~= done + lines_from(
                    s@,
                    start as int,
                    pos as int,
                ));
                done = done.push(piece@);
            }
            r.push(piece);
            pos = pos + 1;
            start = pos;
        } else {
            pos = pos + 1;
        }
    }
    if start < s.len() {
        let piece = copy_range(s, start, s.len());
        proof {
            assert(done.push(piece@) =~= done + lines_from(s@, start as int, pos as int));
            done = done.push(piece@);
        }
        r.push(piece);
    } else {
        assert(done =~= done + lines_from(s@, start as int, pos as int));
    }
    r
}

// ─── Linux: /proc/bus/input/devices ─────────────────────────────────────────

/// An `H: Handlers=` line that lists a keyboard event handler.
pub open spec fn is_keyboard_handler_line(l: Seq<char>) -> bool {
    &&& starts_with_seq(l, "H: Handlers="@)
    &&& contains_seq(l, "kbd"@)
    &&& contains_seq(l, "event"@)
}

/// A `B: KEY=` line whose bitmap takes more than 20 bytes: real keyboards have
/// many keys, power buttons and the like only a few.
pub open spec fn is_long_key_bitmap_line(l: Seq<char>) -> bool {
    &&& starts_with_seq(l, "B: KEY="@)
    &&& utf8_len(l.skip(7)) > 20
}

/// An uppercased block that names a device which is no keyboard although it has
/// a keyboard handler.
pub open spec fn names_non_keyboard(upper: Seq<char>) -> bool {
    ||| contains_seq(upper, "POWER BUTTON"@)
    ||| contains_seq(upper, "VIDEO BUS"@)
    ||| contains_seq(upper, "SLEEP BUTTON"@)
    ||| contains_seq(upper, "PC SPEAKER"@)
}

/// One block of the input device table, and `upper`, the block in uppercase,
/// describe a physical keyboard: the uppercase block has an event bitmap
/// (`EV=`), the block has a keyboard event handler, the uppercase block names
/// none of the known non-keyboards, and the block has a long key bitmap.
pub open spec fn judges_physical_keyboard(block: Seq<char>, upper: Seq<char>) -> bool {
    let lines = text_lines(block);
    &&& contains_seq(upper, "EV="@)
    &&& exists|i: int| 0 <= i < lines.len() && #[trigger] is_keyboard_handler_line(lines[i])
    &&& !names_non_keyboard(upper)
    &&& exists|i: int| 0 <= i < lines.len() && #[trigger] is_long_key_bitmap_line(lines[i])
}

/// One block of the input device table describes a physical keyboard: it has
/// an event bitmap (`EV=`, in any case), a keyboard event handler, is not one of
/// the known non-keyboards (in any case), and has a long key bitmap.
pub open spec fn describes_physical_keyboard(block: Seq<char>) -> bool {
    judges_physical_keyboard(block, unicode_uppercase(block))
}

/// The input device table (the text of `/proc/bus/input/devices`) lists a
/// physical keyboard in one of its blank-line separated blocks.
pub open spec fn table_lists_keyboard(table: Seq<char>) -> bool {
    let blocks = text_blocks(table);
    exists|i: int| 0 <= i < blocks.len() && #[trigger] describes_physical_keyboard(blocks[i])
}

/// Whether some line satisfies the keyboard-handler test.
fn any_keyboard_handler_line(lines: &Vec<Vec<char>>) -> (r: bool)
    ensures
        r == exists|i: int| 0 <= i < lines@.len() && #[trigger] is_keyboard_handler_line(lines@[i]@),
{
    let handlers = chars_of("H: Handlers=");
    let kbd = chars_of("kbd");
    let event = chars_of("event");
    let mut i: usize = 0;
    while i < lines.len()
        invariant
            i <= lines@.len(),
            handlers@ == "H: Handlers="@,
            kbd@ == "kbd"@,
            event@ == "event"@,
            forall|j: int| 0 <= j < i ==> !#[trigger] is_keyboard_handler_line(lines@[j]@),
        decreases lines@.len() - i,
    {
        let line = &lines[i];
        if starts_with(line, &handlers) && contains(line, &kbd) && contains(line, &event) {
            assert(is_keyboard_handler_line(lines@[i as int]@));
            return true;
        }
        i += 1;
    }
    false
}

/// Whether some line is a long key bitmap.
fn any_long_key_bitmap_line(lines: &Vec<Vec<char>>) -> (r: bool)
    ensures
        r == exists|i: int| 0 <= i < lines@.len() && #[trigger] is_long_key_bitmap_line(lines@[i]@),
{
    let key = chars_of("B: KEY=");
    proof {
        reveal_strlit("B: KEY=");
    }
    let mut i: usize = 0;
    while i < lines.len()
        invariant
            i <= lines@.len(),
            key@ == "B: KEY="@,
            key@.len() == 7,
            forall|j: int| 0 <= j < i ==> !#[trigger] is_long_key_bitmap_line(lines@[j]@),
        decreases lines@.len() - i,
    {
        let line = &lines[i];
        if starts_with(line, &key) && utf8_len_exceeds(line, 7, 20) {
            assert(is_long_key_bitmap_line(lines@[i as int]@));
            return true;
        }
        i += 1;
    }
    false
}

/// Whether one block of the input device table describes a physical keyboard.
pub fn block_describes_physical_keyboard(block: &Vec<char>) -> (r: bool)
    ensures
        r == describes_physical_keyboard(block@),
{
    let upper = uppercase(block);
    judge_block(block, &upper)
}

/// Whether one block of the input device table, given with its uppercase,
/// describes a physical keyboard.
pub fn judge_block(block: &Vec<char>, upper: &Vec<char>) -> (r: bool)
    ensures
        r == judges_physical_keyboard(block@, upper@),
{
    if !contains(upper, &chars_of("EV=")) {
        return false;
    }
    let lines = split_lines(block);
    if !any_keyboard_handler_line(&lines) {
        proof {
            assert forall|i: int| 0 <= i < text_lines(block@).len() implies !#[trigger] is_keyboard_handler_line(
                text_lines(block@)[i],
            ) by {
                assert(lines@[i]@ == text_lines(block@)[i]);
            }
        }
        return false;
    }
    proof {
        let k = choose|i: int| 0 <= i < lines@.len() && #[trigger] is_keyboard_handler_line(lines@[i]@);
        assert(lines@[k]@ == text_lines(block@)[k]);
    }
    if contains(upper, &chars_of("POWER BUTTON")) || contains(upper, &chars_of("VIDEO BUS"))
        || contains(upper, &chars_of("SLEEP BUTTON")) || contains(upper, &chars_of("PC SPEAKER")) {
        return false;
    }
    let many = any_long_key_bitmap_line(&lines);
    proof {
        if many {
            let k = choose|i: int| 0 <= i < lines@.len() && #[trigger] is_long_key_bitmap_line(lines@[i]@);
            assert(lines@[k]@ == text_lines(block@)[k]);
        } else {
            assert forall|i: int| 0 <= i < text_lines(block@).len() implies !#[trigger] is_long_key_bitmap_line(
                text_lines(block@)[i],
            ) by {
                assert(lines@[i]@ == text_lines(block@)[i]);
            }
        }
    }
    many
}

/// Whether the input device table lists a physical keyboard.
pub fn table_lists_physical_keyboard(table: &str) -> (r: bool)
    ensures
        r == table_lists_keyboard(table@),
{
    let chars = chars_of(table);
    let blocks = split_blocks(&chars);
    let mut i: usize = 0;
    while i < blocks.len()
        invariant
            i <= blocks@.len(),
            chars@ == table@,
            blocks@.len() == text_blocks(table@).len(),
            forall|j: int| 0 <= j < blocks@.len() ==> #[trigger] blocks@[j]@ == text_blocks(table@)[j],
            forall|j: int| 0 <= j < i ==> !#[trigger] describes_physical_keyboard(text_blocks(table@)[j]),
        decreases blocks@.len() - i,
    {
        if block_describes_physical_keyboard(&blocks[i]) {
            assert(blocks@[i as int]@ == text_blocks(table@)[i as int]);
            return true;
        }
        assert(blocks@[i as int]@ == text_blocks(table@)[i as int]);
        i += 1;
    }
    false
}

/// How many newlines `s` ends in.
pub open spec fn trailing_newlines(s: Seq<char>) -> nat
    decreases s.len(),
{
    if s.len() > 0 && s.last() == '\n' {
        1 + trailing_newlines(s.drop_last())
    } else {
        0
    }
}

/// The last `trailing_newlines(s)` characters of `s` are newlines, and the one
/// before them, if any, is not.
proof fn lemma_trailing_newlines(s: Seq<char>)
    ensures
        trailing_newlines(s) <= s.len(),
        forall|i: int| s.len() - trailing_newlines(s) <= i < s.len() ==> s[i] == '\n',
        trailing_newlines(s) < s.len() ==> s[s.len() - trailing_newlines(s) - 1] != '\n',
    decreases s.len(),
{
    if s.len() > 0 && s.last() == '\n' {
        lemma_trailing_newlines(s.drop_last());
        assert forall|i: int| s.len() - trailing_newlines(s) <= i < s.len() implies s[i] == '\n' by {
            if i < s.len() - 1 {
                assert(s[i] == s.drop_last()[i]);
            }
        }
        if trailing_newlines(s) < s.len() {
            assert(s[s.len() - trailing_newlines(s) - 1] == s.drop_last()[s.len() - trailing_newlines(s) - 1]);
        }
    }
}

/// Splitting `a`, a blank line and `b` scans `a` as splitting `a` alone does,
/// as long as the newlines `a` ends in pair up among themselves.
proof fn lemma_blocks_of_join(a: Seq<char>, b: Seq<char>, start: int, pos: int)
    requires
        trailing_newlines(a) % 2 == 0,
        0 <= start <= pos <= a.len(),
        pos <= a.len() - trailing_newlines(a) || (pos - (a.len() - trailing_newlines(a))) % 2 == 0,
    ensures
        blocks_from(a + seq!['\n', '\n'] + b, start, pos) == blocks_from(a, start, pos) + blocks_from(
            a + seq!['\n', '\n'] + b,
            (a.len() + 2) as int,
            (a.len() + 2) as int,
        ),
    decreases a.len() - pos,
{
    let s = a + seq!['\n', '\n'] + b;
    let m = a.len() - trailing_newlines(a);
    lemma_trailing_newlines(a);
    assert(s[a.len() as int] == '\n' && s[a.len() + 1int] == '\n');
    if pos == a.len() {
        assert(s.subrange(start, pos) =~= a.subrange(start, a.len() as int));
        assert(blocks_from(s, start, pos) =~= blocks_from(a, start, pos) + blocks_from(
            s,
            (a.len() + 2) as int,
            (a.len() + 2) as int,
        ));
    } else if pos + 1 == a.len() {
        assert(s[pos] == a[pos]);
        lemma_blocks_of_join(a, b, start, pos + 1);
        assert(s.subrange(start, a.len() as int) =~= a.subrange(start, a.len() as int));
    } else {
        assert(s[pos] == a[pos] && s[pos + 1] == a[pos + 1]);
        if a[pos] == '\n' && a[pos + 1] == '\n' {
            lemma_blocks_of_join(a, b, pos + 2, pos + 2);
            assert(s.subrange(start, pos) =~= a.subrange(start, pos));
            assert(blocks_from(s, start, pos) =~= blocks_from(a, start, pos) + blocks_from(
                s,
                (a.len() + 2) as int,
                (a.len() + 2) as int,
            ));
        } else {
            lemma_blocks_of_join(a, b, start, pos + 1);
        }
    }
}

/// Splitting `p + b` from inside `b` splits `b`.
proof fn lemma_blocks_shift(p: Seq<char>, b: Seq<char>, start: int, pos: int)
    requires
        0 <= start <= pos <= b.len(),
    ensures
        blocks_from(p + b, p.len() + start, p.len() + pos) == blocks_from(b, start, pos),
    decreases b.len() - pos,
{
    let s = p + b;
    if pos + 1 >= b.len() {
        assert(s.subrange(p.len() + start, s.len() as int) =~= b.subrange(start, b.len() as int));
    } else {
        assert(s[p.len() + pos] == b[pos] && s[p.len() + pos + 1] == b[pos + 1]);
        if b[pos] == '\n' && b[pos + 1] == '\n' {
            lemma_blocks_shift(p, b, pos + 2, pos + 2);
            assert(s.subrange(p.len() + start, p.len() + pos) =~= b.subrange(start, pos));
            assert(blocks_from(s, p.len() + start, p.len() + pos) =~= blocks_from(b, start, pos));
        } else {
            lemma_blocks_shift(p, b, start, pos + 1);
        }
    }
}

/// Two device tables joined by a blank line list a physical keyboard exactly when
/// one of them does: each block is judged on its own, so adding blocks never
/// hides a keyboard. The newlines the first table ends in must pair up (none, or
/// a closing blank line, as the kernel writes it); otherwise the joining blank
/// line splits differently.
pub proof fn law_joined_tables_list_keyboard(a: Seq<char>, b: Seq<char>)
    requires
        trailing_newlines(a) % 2 == 0,
    ensures
        table_lists_keyboard(a + seq!['\n', '\n'] + b) == (table_lists_keyboard(a)
            || table_lists_keyboard(b)),
{
    let sep = seq!['\n', '\n'];
    let s = a + sep + b;
    lemma_trailing_newlines(a);
    lemma_blocks_of_join(a, b, 0, 0);
    lemma_blocks_shift(a + sep, b, 0, 0);
    let ba = text_blocks(a);
    let bb = text_blocks(b);
    assert(text_blocks(s) == ba + bb);
    let bs = text_blocks(s);
    if table_lists_keyboard(s) {
        let i = choose|i: int| 0 <= i < bs.len() && #[trigger] describes_physical_keyboard(bs[i]);
        if i < ba.len() {
            assert(bs[i] == ba[i]);
        } else {
            assert(bs[i] == bb[i - ba.len()]);
        }
    }
    if table_lists_keyboard(a) {
        let i = choose|i: int| 0 <= i < ba.len() && #[trigger] describes_physical_keyboard(ba[i]);
        assert(bs[i] == ba[i]);
    }
    if table_lists_keyboard(b) {
        let i = choose|i: int| 0 <= i < bb.len() && #[trigger] describes_physical_keyboard(bb[i]);
        assert(bs[ba.len() + i] == bb[i]);
    }
}

/// An empty device table lists no keyboard.
pub proof fn law_empty_table_lists_no_keyboard()
    ensures
        !table_lists_keyboard(Seq::<char>::empty()),
{
    let e = Seq::<char>::empty();
    assert(e.subrange(0, 0) =~= e);
    assert(text_blocks(e) =~= seq![e]);
    assert(text_lines(e) =~= Seq::<Seq<char>>::empty());
    assert(!describes_physical_keyboard(e));
}

// ─── Windows: raw input devices ─────────────────────────────────────────────

/// One entry of the raw input device list.
#[derive(Debug)]
pub struct RawInputDevice {
    /// The device is of the keyboard type (`RIM_TYPEKEYBOARD`).
    pub is_keyboard: bool,
    /// The device name, where it could be read and is not empty.
    pub name: Option<String>,
}

/// An uppercase device name that names a virtual keyboard (remote desktop,
/// Hyper-V, terminal services).
pub open spec fn names_virtual_keyboard(upper: Seq<char>) -> bool {
    ||| contains_seq(upper, "RDP"@)
    ||| contains_seq(upper, "VIRTUAL"@)
    ||| contains_seq(upper, "TERMINPUT"@)
}

/// A device name that belongs to a virtual keyboard, compared in uppercase.
pub open spec fn is_virtual_keyboard_name(name: Seq<char>) -> bool {
    names_virtual_keyboard(unicode_uppercase(name))
}

/// A raw input device that counts as a physical keyboard: a keyboard whose name,
/// where it is known, is not that of a virtual keyboard.
pub open spec fn is_physical_keyboard_device(d: RawInputDevice) -> bool {
    &&& d.is_keyboard
    &&& !(d.name matches Some(n) && is_virtual_keyboard_name(n@))
}

/// Whether a device name belongs to a virtual keyboard.
pub fn virtual_keyboard_name(name: &String) -> (r: bool)
    ensures
        r == is_virtual_keyboard_name(name@),
{
    let upper = uppercase(&chars_of(name.as_str()));
    upper_name_is_virtual(&upper)
}

/// Whether an uppercase device name names a virtual keyboard.
pub fn upper_name_is_virtual(upper: &Vec<char>) -> (r: bool)
    ensures
        r == names_virtual_keyboard(upper@),
{
    contains(upper, &chars_of("RDP")) || contains(upper, &chars_of("VIRTUAL")) || contains(
        upper,
        &chars_of("TERMINPUT"),
    )
}

/// Whether one raw input device counts as a physical keyboard.
pub fn device_is_physical_keyboard(device: &RawInputDevice) -> (r: bool)
    ensures
        r == is_physical_keyboard_device(*device),
{
    device.is_keyboard && match &device.name {
        Some(name) => !virtual_keyboard_name(name),
        None => true,
    }
}

/// Some device of the list counts as a physical keyboard.
pub open spec fn lists_physical_keyboard(devices: Seq<RawInputDevice>) -> bool {
    exists|i: int| 0 <= i < devices.len() && #[trigger] is_physical_keyboard_device(devices[i])
}

/// A line is a keyboard handler line exactly when it starts with
/// "H: Handlers=" and mentions both "kbd" and "event" anywhere after that;
/// nothing else on the line matters.
pub proof fn law_keyboard_handler_line(l: Seq<char>)
    ensures
        is_keyboard_handler_line(l) <==> (l.len() >= 12 && l.take(12) == "H: Handlers="@ && (exists|i: int|
            0 <= i <= l.len() - 3 && #[trigger] l.subrange(i, i + 3) == "kbd"@) && (exists|j: int|
            0 <= j <= l.len() - 5 && #[trigger] l.subrange(j, j + 5) == "event"@)),
{
    reveal_strlit("H: Handlers=");
    reveal_strlit("kbd");
    reveal_strlit("event");
    let kbd = "kbd"@;
    let event = "event"@;
    assert(kbd.len() == 3 && event.len() == 5);
    if contains_seq(l, kbd) {
        let i = choose|i: int| occurs_at(l, kbd, i);
        assert(l.subrange(i, i + 3) == kbd);
    }
    if contains_seq(l, event) {
        let j = choose|j: int| occurs_at(l, event, j);
        assert(l.subrange(j, j + 5) == event);
    }
    if exists|i: int| 0 <= i <= l.len() - 3 && #[trigger] l.subrange(i, i + 3) == kbd {
        let i = choose|i: int| 0 <= i <= l.len() - 3 && #[trigger] l.subrange(i, i + 3) == kbd;
        assert(occurs_at(l, kbd, i));
    }
    if exists|j: int| 0 <= j <= l.len() - 5 && #[trigger] l.subrange(j, j + 5) == event {
        let j = choose|j: int| 0 <= j <= l.len() - 5 && #[trigger] l.subrange(j, j + 5) == event;
        assert(occurs_at(l, event, j));
    }
    if l.len() >= 12 {
        assert(l.take(12) == l.subrange(0, 12));
    }
}

/// Every raw input device is judged on its own: a list counts as having a
/// physical keyboard exactly when one of its devices is one, wherever it
/// stands. So joining two lists keeps any keyboard either one has, an empty
/// list has none, and a list of one device has one exactly when that device is.
pub proof fn law_any_device_counts(a: Seq<RawInputDevice>, b: Seq<RawInputDevice>, d: RawInputDevice)
    ensures
        lists_physical_keyboard(a + b) == (lists_physical_keyboard(a) || lists_physical_keyboard(b)),
        !lists_physical_keyboard(Seq::<RawInputDevice>::empty()),
        lists_physical_keyboard(seq![d]) == is_physical_keyboard_device(d),
{
    let ab = a + b;
    if lists_physical_keyboard(ab) {
        let i = choose|i: int| 0 <= i < ab.len() && #[trigger] is_physical_keyboard_device(ab[i]);
        if i < a.len() {
            assert(ab[i] == a[i]);
        } else {
            assert(ab[i] == b[i - a.len()]);
        }
    }
    if lists_physical_keyboard(a) {
        let i = choose|i: int| 0 <= i < a.len() && #[trigger] is_physical_keyboard_device(a[i]);
        assert(ab[i] == a[i]);
    }
    if lists_physical_keyboard(b) {
        let i = choose|i: int| 0 <= i < b.len() && #[trigger] is_physical_keyboard_device(b[i]);
        assert(ab[a.len() + i] == b[i]);
    }
    if is_physical_keyboard_device(d) {
        assert(seq![d][0] == d);
    }
}

// ─── All platforms ──────────────────────────────────────────────────────────

/// What the platform's keyboard probe found.
#[derive(Debug)]
pub enum KeyboardProbe {
    /// Linux: the text of `/proc/bus/input/devices`, or `None` when it could
    /// not be read.
    InputDeviceTable(Option<String>),
    /// Windows: the raw input device list, or `None` when it could not be
    /// obtained.
    RawInputDevices(Option<Vec<RawInputDevice>>),
    /// A platform without a probe (macOS).
    NoProbe,
}

/// What `has_physical_keyboard` answers for a probe. When the probe failed, or
/// the platform has none, a keyboard is assumed to be present.
pub open spec fn probe_finds_keyboard(probe: KeyboardProbe) -> bool {
    match probe {
        KeyboardProbe::InputDeviceTable(None) => true,
        KeyboardProbe::InputDeviceTable(Some(table)) => table_lists_keyboard(table@),
        KeyboardProbe::RawInputDevices(None) => true,
        KeyboardProbe::RawInputDevices(Some(devices)) => lists_physical_keyboard(devices@),
        KeyboardProbe::NoProbe => true,
    }
}

/// Whether a physical keyboard is attached, judged from what the platform's
/// probe found.
pub fn has_physical_keyboard(probe: &KeyboardProbe) -> (r: bool)
    ensures
        r == probe_finds_keyboard(*probe),
{
    match probe {
        KeyboardProbe::InputDeviceTable(None) => true,
        KeyboardProbe::InputDeviceTable(Some(table)) => table_lists_physical_keyboard(table.as_str()),
        KeyboardProbe::RawInputDevices(None) => true,
        KeyboardProbe::RawInputDevices(Some(devices)) => {
            let mut i: usize = 0;
            while i < devices.len()
                invariant
                    i <= devices@.len(),
                    *probe == KeyboardProbe::RawInputDevices(Some(*devices)),
                    forall|j: int| 0 <= j < i ==> !#[trigger] is_physical_keyboard_device(devices@[j]),
                decreases devices@.len() - i,
            {
                if device_is_physical_keyboard(&devices[i]) {
                    return true;
                }
                i += 1;
            }
            false
        },
        KeyboardProbe::NoProbe => true,
    }
}

// ─── Linux: toggling the virtual keyboard ───────────────────────────────────

/// The virtual keyboard programs tried on Linux, in order of preference.
pub open spec fn virtual_keyboard_program(i: int) -> Seq<char> {
    if i == 0 {
        "onboard"@
    } else if i == 1 {
        "squeekboard"@
    } else if i == 2 {
        "florence"@
    } else {
        "xvkbd"@
    }
}

/// How many virtual keyboard programs are tried.
pub const VIRTUAL_KEYBOARD_PROGRAMS: usize = 4;

/// The name of the `i`-th virtual keyboard program.
fn program_name(i: usize) -> (name: &'static str)
    requires
        i < VIRTUAL_KEYBOARD_PROGRAMS,
    ensures
        name@ == virtual_keyboard_program(i as int),
{
    if i == 0 {
        "onboard"
    } else if i == 1 {
        "squeekboard"
    } else if i == 2 {
        "florence"
    } else {
        "xvkbd"
    }
}

/// Where a virtual keyboard toggle stands.
#[derive(PartialEq, Eq, Structural, Clone, Copy, Debug)]
pub enum ToggleState {
    /// Nothing has been done yet.
    Start,
    /// The caller was asked whether program `i` is running.
    Probing(usize),
    /// The caller was asked to launch program `i`.
    Launching(usize),
    /// The toggle is over.
    Finished,
}

/// What the caller does next to toggle the virtual keyboard.
#[derive(Debug)]
pub enum ToggleAction {
    /// Run `pgrep` on the program and report whether it succeeded.
    Probe(&'static str),
    /// The program is running: run `pkill` on it; nothing follows.
    Stop(&'static str),
    /// Spawn the program and report whether it started.
    Launch(&'static str),
    /// A virtual keyboard was launched; nothing follows.
    Done,
    /// No virtual keyboard program could be started; nothing follows.
    NotFound,
}

/// A toggle action as plain values: programs by their index.
pub enum ToggleEffect {
    Probe(usize),
    Stop(usize),
    Launch(usize),
    Done,
    NotFound,
}

/// `action` is the action that `effect` describes.
pub open spec fn performs(action: ToggleAction, effect: ToggleEffect) -> bool {
    match effect {
        ToggleEffect::Probe(i) => action matches ToggleAction::Probe(p) && p@ == virtual_keyboard_program(i as int),
        ToggleEffect::Stop(i) => action matches ToggleAction::Stop(p) && p@ == virtual_keyboard_program(i as int),
        ToggleEffect::Launch(i) => action matches ToggleAction::Launch(p) && p@ == virtual_keyboard_program(i as int),
        ToggleEffect::Done => action is Done,
        ToggleEffect::NotFound => action is NotFound,
    }
}

/// The state and action that follow `state` when the last action reported
/// `succeeded` (ignored at the start and at the end).
pub open spec fn toggle_step(state: ToggleState, succeeded: bool) -> (ToggleState, ToggleEffect) {
    match state {
        ToggleState::Start => (ToggleState::Probing(0), ToggleEffect::Probe(0)),
        ToggleState::Probing(i) => if i >= VIRTUAL_KEYBOARD_PROGRAMS {
            (ToggleState::Finished, ToggleEffect::NotFound)
        } else if succeeded {
            (ToggleState::Finished, ToggleEffect::Stop(i))
        } else {
            (ToggleState::Launching(i), ToggleEffect::Launch(i))
        },
        ToggleState::Launching(i) => if i >= VIRTUAL_KEYBOARD_PROGRAMS {
            (ToggleState::Finished, ToggleEffect::NotFound)
        } else if succeeded {
            (ToggleState::Finished, ToggleEffect::Done)
        } else if i + 1 < VIRTUAL_KEYBOARD_PROGRAMS {
            (ToggleState::Probing((i + 1) as usize), ToggleEffect::Probe((i + 1) as usize))
        } else {
            (ToggleState::Finished, ToggleEffect::NotFound)
        },
        ToggleState::Finished => (ToggleState::Finished, ToggleEffect::Done),
    }
}

/// One step of toggling the Linux virtual keyboard: for each program in order
/// of preference, a running one is stopped, otherwise it is launched, and the
/// next program is tried when the launch fails.
pub fn toggle_virtual_keyboard(state: ToggleState, succeeded: bool) -> (r: (ToggleState, ToggleAction))
    ensures
        r.0 == toggle_step(state, succeeded).0,
        performs(r.1, toggle_step(state, succeeded).1),
{
    match state {
        ToggleState::Start => (ToggleState::Probing(0), ToggleAction::Probe(program_name(0))),
        ToggleState::Probing(i) => {
            if i >= VIRTUAL_KEYBOARD_PROGRAMS {
                (ToggleState::Finished, ToggleAction::NotFound)
            } else if succeeded {
                (ToggleState::Finished, ToggleAction::Stop(program_name(i)))
            } else {
                (ToggleState::Launching(i), ToggleAction::Launch(program_name(i)))
            }
        },
        ToggleState::Launching(i) => {
            if i >= VIRTUAL_KEYBOARD_PROGRAMS {
                (ToggleState::Finished, ToggleAction::NotFound)
            } else if succeeded {
                (ToggleState::Finished, ToggleAction::Done)
            } else if i + 1 < VIRTUAL_KEYBOARD_PROGRAMS {
                (ToggleState::Probing(i + 1), ToggleAction::Probe(program_name(i + 1)))
            } else {
                (ToggleState::Finished, ToggleAction::NotFound)
            }
        },
        ToggleState::Finished => (ToggleState::Finished, ToggleAction::Done),
    }
}

/// A measure of the work left to a toggle.
pub open spec fn toggle_measure(state: ToggleState) -> int {
    match state {
        ToggleState::Start => 2 * VIRTUAL_KEYBOARD_PROGRAMS + 1,
        ToggleState::Probing(i) => if i < VIRTUAL_KEYBOARD_PROGRAMS {
            2 * (VIRTUAL_KEYBOARD_PROGRAMS - i)
        } else {
            1
        },
        ToggleState::Launching(i) => if i < VIRTUAL_KEYBOARD_PROGRAMS {
            2 * (VIRTUAL_KEYBOARD_PROGRAMS - i) - 1
        } else {
            1
        },
        ToggleState::Finished => 0,
    }
}

/// Every step of an unfinished toggle makes progress, so a toggle ends after at
/// most nine steps.
pub proof fn law_toggle_terminates(state: ToggleState, succeeded: bool)
    requires
        state != ToggleState::Finished,
    ensures
        0 <= toggle_measure(toggle_step(state, succeeded).0) < toggle_measure(state),
{
}

/// What the caller reports to the step that follows `state` when each program
/// `i` is running exactly when `running[i]` and starts exactly when
/// `startable[i]`: the outcome of the probe or launch that led to `state`.
pub open spec fn toggle_report(state: ToggleState, running: Seq<bool>, startable: Seq<bool>) -> bool {
    match state {
        ToggleState::Probing(i) => running[i as int],
        ToggleState::Launching(i) => startable[i as int],
        _ => false,
    }
}

/// The actions of a whole toggle from `state`, for the programs' given
/// `running` and `startable`.
pub open spec fn toggle_run(state: ToggleState, running: Seq<bool>, startable: Seq<bool>) -> Seq<ToggleEffect>
    decreases toggle_measure(state),
{
    if state == ToggleState::Finished {
        seq![]
    } else {
        let (next, effect) = toggle_step(state, toggle_report(state, running, startable));
        seq![effect] + toggle_run(next, running, startable)
    }
}

/// What toggling the virtual keyboard does from program `j` on: probe it; stop
/// it if it runs; otherwise launch it, and stop there if it starts, or go on to
/// the next program if it does not. Past the last program, nothing was found.
pub open spec fn toggle_outcome(running: Seq<bool>, startable: Seq<bool>, j: usize) -> Seq<ToggleEffect>
    decreases VIRTUAL_KEYBOARD_PROGRAMS - j,
{
    if j >= VIRTUAL_KEYBOARD_PROGRAMS {
        seq![ToggleEffect::NotFound]
    } else if running[j as int] {
        seq![ToggleEffect::Probe(j), ToggleEffect::Stop(j)]
    } else if startable[j as int] {
        seq![ToggleEffect::Probe(j), ToggleEffect::Launch(j), ToggleEffect::Done]
    } else {
        seq![ToggleEffect::Probe(j), ToggleEffect::Launch(j)] + toggle_outcome(
            running,
            startable,
            (j + 1) as usize,
        )
    }
}

/// A toggle from program `j`, once it has been probed, goes on as
/// `toggle_outcome` says.
proof fn lemma_toggle_run_from(running: Seq<bool>, startable: Seq<bool>, j: usize)
    requires
        j < VIRTUAL_KEYBOARD_PROGRAMS,
    ensures
        seq![ToggleEffect::Probe(j)] + toggle_run(ToggleState::Probing(j), running, startable)
            == toggle_outcome(running, startable, j),
    decreases VIRTUAL_KEYBOARD_PROGRAMS - j,
{
    let probing = ToggleState::Probing(j);
    let launching = ToggleState::Launching(j);
    let probe = seq![ToggleEffect::Probe(j)];
    assert(toggle_run(ToggleState::Finished, running, startable) =~= seq![]);
    if running[j as int] {
        assert(toggle_run(probing, running, startable) =~= seq![ToggleEffect::Stop(j)]);
        assert(probe + toggle_run(probing, running, startable) =~= toggle_outcome(running, startable, j));
    } else if startable[j as int] {
        assert(toggle_run(launching, running, startable) =~= seq![ToggleEffect::Done]);
        assert(toggle_run(probing, running, startable) =~= seq![ToggleEffect::Launch(j), ToggleEffect::Done]);
        assert(probe + toggle_run(probing, running, startable) =~= toggle_outcome(running, startable, j));
    } else if j + 1 < VIRTUAL_KEYBOARD_PROGRAMS {
        let k = (j + 1) as usize;
        lemma_toggle_run_from(running, startable, k);
        let rest = toggle_run(ToggleState::Probing(k), running, startable);
        assert(toggle_run(launching, running, startable) =~= seq![ToggleEffect::Probe(k)] + rest);
        assert(toggle_run(probing, running, startable) =~= seq![ToggleEffect::Launch(j)] + toggle_run(
            launching,
            running,
            startable,
        ));
        assert(toggle_outcome(running, startable, j) == seq![ToggleEffect::Probe(j), ToggleEffect::Launch(j)]
            + toggle_outcome(running, startable, k));
        assert(probe + toggle_run(probing, running, startable) =~= seq![
            ToggleEffect::Probe(j),
            ToggleEffect::Launch(j),
        ] + (seq![ToggleEffect::Probe(k)] + rest));
    } else {
        assert(toggle_run(launching, running, startable) =~= seq![ToggleEffect::NotFound]);
        assert(toggle_run(probing, running, startable) =~= seq![ToggleEffect::Launch(j)] + toggle_run(
            launching,
            running,
            startable,
        ));
        assert(toggle_outcome(running, startable, (j + 1) as usize) == seq![ToggleEffect::NotFound]);
        assert(probe + toggle_run(probing, running, startable) =~= toggle_outcome(running, startable, j));
    }
}

/// A whole toggle of the Linux virtual keyboard, when each program `i` is
/// running exactly when `running[i]` and starts exactly when `startable[i]`:
/// the programs are tried in order of preference; the first one that runs is
/// stopped, or else the first one that starts is launched, and nothing after it
/// is touched; when none runs or starts, every one was probed and launched in
/// vain and nothing was found.
pub proof fn law_toggle_run(running: Seq<bool>, startable: Seq<bool>)
    ensures
        toggle_run(ToggleState::Start, running, startable) == toggle_outcome(running, startable, 0),
{
    lemma_toggle_run_from(running, startable, 0);
    assert(toggle_run(ToggleState::Start, running, startable) =~= seq![ToggleEffect::Probe(0)] + toggle_run(
        ToggleState::Probing(0),
        running,
        startable,
    ));
}

} // verus!
