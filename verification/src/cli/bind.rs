//! The `bind` command: adding, removing and listing bindings.
use crate::config::binding::{input_mode_name, Binding, InputMode};
use crate::config::Config;
use crate::text::{chars_of, decimal, push_char, push_decimal, str_eq};
use vstd::prelude::*;

verus! {

/// East Asian wide and fullwidth characters: Hangul Jamo, CJK radicals,
/// symbols and punctuation, kana, CJK ideographs (with their extensions and
/// compatibility forms), Yi, Hangul syllables, CJK vertical and
/// compatibility forms, fullwidth forms, and the wide emoji blocks.
pub open spec fn is_wide(c: char) -> bool {
    let u = c as u32;
    ||| 0x1100 <= u <= 0x115F
    ||| 0x2E80 <= u <= 0x303E
    ||| 0x3041 <= u <= 0x33FF
    ||| 0x3400 <= u <= 0x4DBF
    ||| 0x4E00 <= u <= 0x9FFF
    ||| 0xA000 <= u <= 0xA4CF
    ||| 0xAC00 <= u <= 0xD7A3
    ||| 0xF900 <= u <= 0xFAFF
    ||| 0xFE30 <= u <= 0xFE4F
    ||| 0xFF00 <= u <= 0xFF60
    ||| 0xFFE0 <= u <= 0xFFE6
    ||| 0x1F300 <= u <= 0x1F64F
    ||| 0x1F900 <= u <= 0x1F9FF
    ||| 0x20000 <= u <= 0x2FFFD
    ||| 0x30000 <= u <= 0x3FFFD
}

/// Columns a character takes on screen: two for a wide (CJK) character,
/// one for any other.
pub open spec fn char_width(c: char) -> nat {
    if is_wide(c) {
        2
    } else {
        1
    }
}

/// Whether a character is wide (see `is_wide`).
pub fn is_wide_char(c: char) -> (r: bool)
    ensures
        r == is_wide(c),
{
    let u = c as u32;
    (0x1100 <= u && u <= 0x115F) || (0x2E80 <= u && u <= 0x303E) || (0x3041 <= u && u <= 0x33FF)
        || (0x3400 <= u && u <= 0x4DBF) || (0x4E00 <= u && u <= 0x9FFF) || (0xA000 <= u && u
        <= 0xA4CF) || (0xAC00 <= u && u <= 0xD7A3) || (0xF900 <= u && u <= 0xFAFF) || (0xFE30
        <= u && u <= 0xFE4F) || (0xFF00 <= u && u <= 0xFF60) || (0xFFE0 <= u && u <= 0xFFE6)
        || (0x1F300 <= u && u <= 0x1F64F) || (0x1F900 <= u && u <= 0x1F9FF) || (0x20000 <= u
        && u <= 0x2FFFD) || (0x30000 <= u && u <= 0x3FFFD)
}

/// Columns a text takes on screen.
pub open spec fn text_width(s: Seq<char>) -> nat
    decreases s.len(),
{
    if s.len() == 0 {
        0
    } else {
        text_width(s.drop_last()) + char_width(s.last())
    }
}

/// `n` spaces.
pub open spec fn spaces(n: nat) -> Seq<char> {
    Seq::new(n, |_i: int| ' ')
}

/// The text padded with spaces on the right to `width` columns; a text that
/// is already as wide is left as it is.
pub open spec fn padded(s: Seq<char>, width: nat) -> Seq<char> {
    if text_width(s) >= width {
        s
    } else {
        s + spaces((width - text_width(s)) as nat)
    }
}

/// A prefix is never wider than the whole text.
pub proof fn lemma_prefix_width(s: Seq<char>, i: int)
    requires
        0 <= i <= s.len(),
    ensures
        text_width(s.take(i)) <= text_width(s),
    decreases s.len(),
{
    if i < s.len() {
        assert(s.take(i) =~= s.drop_last().take(i));
        lemma_prefix_width(s.drop_last(), i);
    } else {
        assert(s.take(i) =~= s);
    }
}

/// The display width of a string, accounting for CJK characters (2 columns
/// each; every other character takes 1).
pub fn display_width(s: &str) -> (r: usize)
    requires
        s@.len() <= usize::MAX / 2,
    ensures
        r == text_width(s@),
{
    let v = chars_of(s);
    let mut w: usize = 0;
    let mut i: usize = 0;
    while i < v.len()
        invariant
            0 <= i <= v@.len(),
            v@ == s@,
            v@.len() <= usize::MAX / 2,
            w == text_width(v@.take(i as int)),
            w <= 2 * i,
        decreases v.len() - i,
    {
        assert(v@.take(i + 1).drop_last() =~= v@.take(i as int));
        if is_wide_char(v[i]) {
            w = w + 2;
        } else {
            w = w + 1;
        }
        i = i + 1;
    }
    assert(v@.take(v@.len() as int) =~= v@);
    w
}

/// The display width of a string, or `cap` where it is at least that wide.
fn width_up_to(s: &[char], cap: usize) -> (r: usize)
    ensures
        r == if text_width(s@) >= cap {
            cap as int
        } else {
            text_width(s@) as int
        },
{
    if cap == 0 {
        return 0;
    }
    let mut w: usize = 0;
    let mut i: usize = 0;
    while i < s.len()
        invariant
            0 <= i <= s@.len(),
            w == text_width(s@.take(i as int)),
            w < cap,
        decreases s.len() - i,
    {
        assert(s@.take(i + 1).drop_last() =~= s@.take(i as int));
        let c: usize = if is_wide_char(s[i]) {
            2
        } else {
            1
        };
        if cap - w <= c {
            proof {
                lemma_prefix_width(s@, i + 1);
            }
            return cap;
        }
        w = w + c;
        i = i + 1;
    }
    assert(s@.take(s@.len() as int) =~= s@);
    if w >= cap {
        cap
    } else {
        w
    }
}

/// Pad a string to a target display width with spaces.
pub fn pad_to_width(s: &str, width: usize) -> (r: String)
    ensures
        r@ == padded(s@, width as nat),
{
    let v = chars_of(s);
    let current = width_up_to(v.as_slice(), width);
    let mut r = s.to_owned();
    if current >= width {
        return r;
    }
    let n = width - current;
    let mut k: usize = 0;
    while k < n
        invariant
            0 <= k <= n,
            r@ == s@ + spaces(k as nat),
        decreases n - k,
    {
        push_char(&mut r, ' ');
        assert(s@ + spaces((k + 1) as nat) =~= (s@ + spaces(k as nat)).push(' '));
        k = k + 1;
    }
    r
}

/// A line of the binding table: the five cells padded to their columns and
/// separated by one space.
pub open spec fn table_line(
    name: Seq<char>,
    hotkey: Seq<char>,
    provider: Seq<char>,
    mode: Seq<char>,
    clear: Seq<char>,
) -> Seq<char> {
    padded(name, 20) + seq![' '] + padded(hotkey, 18) + seq![' '] + padded(provider, 12) + seq![
        ' ',
    ] + padded(mode, 8) + seq![' '] + padded(clear, 8)
}

/// The header of the binding table.
pub open spec fn table_header() -> Seq<char> {
    table_line("NAME"@, "HOTKEY"@, "PROVIDER"@, "MODE"@, "CLEAR"@)
}

/// The rule under the header: as wide as the five columns and the four
/// spaces between them.
pub open spec fn table_rule() -> Seq<char> {
    Seq::new(70, |_i: int| '-')
}

/// The CLEAR cell: the binding's own delay, or the global one marked `*`.
pub open spec fn clear_text(b: Binding, global: u64) -> Seq<char> {
    match b.clipboard_clear_after_secs {
        Some(secs) => decimal(secs as nat) + seq!['s'],
        None => decimal(global as nat) + seq!['s', '*'],
    }
}

/// The row of the binding table that describes a binding.
pub open spec fn binding_row(b: Binding, global: u64) -> Seq<char> {
    table_line(b.name@, b.hotkey@, b.provider@, input_mode_name(b.input_mode), clear_text(b, global))
}

/// What `bind list` prints, line by line.
pub open spec fn binding_listing(c: Config) -> Seq<Seq<char>> {
    if c.bindings@.len() == 0 {
        seq!["No bindings configured."@]
    } else {
        seq![table_header(), table_rule()] + Seq::new(
            c.bindings@.len(),
            |i: int| binding_row(c.bindings@[i], c.settings.clipboard_clear_after_secs),
        )
    }
}

/// Lay out a line of the binding table.
fn table_line_text(name: &str, hotkey: &str, provider: &str, mode: &str, clear: &str) -> (r: String)
    ensures
        r@ == table_line(name@, hotkey@, provider@, mode@, clear@),
{
    let mut r = pad_to_width(name, 20);
    push_char(&mut r, ' ');
    let p = pad_to_width(hotkey, 18);
    r.append(p.as_str());
    push_char(&mut r, ' ');
    let p = pad_to_width(provider, 12);
    r.append(p.as_str());
    push_char(&mut r, ' ');
    let p = pad_to_width(mode, 8);
    r.append(p.as_str());
    push_char(&mut r, ' ');
    let p = pad_to_width(clear, 8);
    r.append(p.as_str());
    r
}

/// The CLEAR cell of a binding.
fn clear_cell(b: &Binding, global: u64) -> (r: String)
    ensures
        r@ == clear_text(*b, global),
{
    let mut r = String::new();
    match b.clipboard_clear_after_secs {
        Some(secs) => {
            push_decimal(&mut r, secs);
            push_char(&mut r, 's');
        },
        None => {
            push_decimal(&mut r, global);
            push_char(&mut r, 's');
            push_char(&mut r, '*');
        },
    }
    r
}

/// The lines that `bind list` prints for a configuration.
pub fn binding_table(config: &Config) -> (lines: Vec<String>)
    ensures
        lines@.map_values(|l: String| l@) == binding_listing(*config),
{
    let mut lines: Vec<String> = Vec::new();
    if config.bindings.len() == 0 {
        lines.push("No bindings configured.".to_owned());
        assert(lines@.map_values(|l: String| l@) =~= binding_listing(*config));
        return lines;
    }
    lines.push(table_line_text("NAME", "HOTKEY", "PROVIDER", "MODE", "CLEAR"));
    let mut rule = String::new();
    let mut k: usize = 0;
    while k < 70
        invariant
            0 <= k <= 70,
            rule@ == Seq::new(k as nat, |_i: int| '-'),
        decreases 70 - k,
    {
        push_char(&mut rule, '-');
        assert(Seq::new((k + 1) as nat, |_i: int| '-') =~= Seq::new(k as nat, |_i: int| '-').push(
            '-',
        ));
        k = k + 1;
    }
    lines.push(rule);
    let global = config.settings.clipboard_clear_after_secs;
    let mut i: usize = 0;
    while i < config.bindings.len()
        invariant
            0 <= i <= config.bindings@.len(),
            global == config.settings.clipboard_clear_after_secs,
            lines@.len() == i + 2,
            lines@[0]@ == table_header(),
            lines@[1]@ == table_rule(),
            forall|j: int|
                0 <= j < i ==> #[trigger] lines@[j + 2]@ == binding_row(config.bindings@[j], global),
        decreases config.bindings.len() - i,
    {
        let b = &config.bindings[i];
        let mode = b.input_mode.name();
        let clear = clear_cell(b, global);
        let row = table_line_text(
            b.name.as_str(),
            b.hotkey.as_str(),
            b.provider.as_str(),
            mode.as_str(),
            clear.as_str(),
        );
        let ghost prev = lines@;
        lines.push(row);
        proof {
            assert(lines@[i + 2]@ == binding_row(config.bindings@[i as int], global));
            assert forall|j: int| 0 <= j < i + 1 implies #[trigger] lines@[j + 2]@ == binding_row(
                config.bindings@[j],
                global,
            ) by {
                if j < i {
                    assert(lines@[j + 2] == prev[j + 2]);
                }
            }
        }
        i = i + 1;
    }
    proof {
        let want = binding_listing(*config);
        let got = lines@.map_values(|l: String| l@);
        assert(got.len() == want.len());
        assert forall|j: int| 0 <= j < got.len() implies got[j] == want[j] by {
            if j >= 2 {
                assert(lines@[(j - 2) + 2]@ == binding_row(config.bindings@[j - 2], global));
            }
        }
        assert(got =~= want);
    }
    lines
}

/// The binding that `bind add` creates: the default input mode and the
/// global clipboard delay.
pub fn added_binding(name: String, hotkey: String, provider: String, item_id: Option<String>) -> (b:
    Binding)
    ensures
        b.name == name,
        b.hotkey == hotkey,
        b.provider == provider,
        b.item_id == item_id,
        b.input_mode == InputMode::Auto,
        b.clipboard_clear_after_secs is None,
{
    Binding {
        name,
        hotkey,
        provider,
        item_id,
        input_mode: InputMode::default(),
        clipboard_clear_after_secs: None,
    }
}

/// The bindings left when those with a name are taken out, in order.
pub open spec fn without_name(bs: Seq<Binding>, name: Seq<char>) -> Seq<Binding>
    decreases bs.len(),
{
    if bs.len() == 0 {
        bs
    } else {
        let rest = without_name(bs.drop_first(), name);
        if bs[0].name@ == name {
            rest
        } else {
            seq![bs[0]] + rest
        }
    }
}

impl Config {
    /// Append a binding; returns what `bind add` prints.
    pub fn add_binding(&mut self, binding: Binding) -> (msg: String)
        ensures
            final(self).bindings@ == old(self).bindings@.push(binding),
            final(self).providers@ == old(self).providers@,
            final(self).settings == old(self).settings,
            msg@ == "Binding added: "@ + binding.name@ + " ("@ + binding.hotkey@ + ")"@,
    {
        let mut msg = "Binding added: ".to_owned();
        msg.append(binding.name.as_str());
        msg.append(" (");
        msg.append(binding.hotkey.as_str());
        msg.append(")");
        self.bindings.push(binding);
        msg
    }

    /// Take out every binding with the given name; returns whether any was.
    pub fn remove_bindings_named(&mut self, name: &str) -> (removed: bool)
        ensures
            final(self).bindings@ == without_name(old(self).bindings@, name@),
            final(self).providers@ == old(self).providers@,
            final(self).settings == old(self).settings,
            removed == (final(self).bindings@.len() < old(self).bindings@.len()),
    {
        let ghost before = self.bindings@;
        let count = self.bindings.len();
        let mut i: usize = count;
        while i > 0
            invariant
                0 <= i <= before.len(),
                self.bindings@ == before.take(i as int) + without_name(before.skip(i as int), name@),
                self.providers@ == old(self).providers@,
                self.settings == old(self).settings,
                before == old(self).bindings@,
                count == before.len(),
            decreases i,
        {
            let j = i - 1;
            proof {
                assert(before.skip(j as int).drop_first() =~= before.skip(i as int));
                assert(before.skip(j as int)[0] == before[j as int]);
                assert(before.take(i as int) =~= before.take(j as int).push(before[j as int]));
            }
            if str_eq(self.bindings[j].name.as_str(), name) {
                assert(self.bindings@[j as int] == before[j as int]);
                let _gone = self.bindings.remove(j);
                assert(self.bindings@ =~= before.take(j as int) + without_name(
                    before.skip(j as int),
                    name@,
                ));
            } else {
                assert(before.take(i as int) + without_name(before.skip(i as int), name@) =~= before.take(
                    j as int,
                ) + without_name(before.skip(j as int), name@));
            }
            i = j;
        }
        assert(before.take(0) =~= Seq::<Binding>::empty());
        assert(before.skip(0) =~= before);
        assert(self.bindings@ =~= without_name(before, name@));
        self.bindings.len() < count
    }
}

/// What `bind remove` prints.
pub fn removal_message(name: &str, removed: bool) -> (msg: String)
    ensures
        removed ==> msg@ == "Binding removed: "@ + name@,
        !removed ==> msg@ == "Binding not found: "@ + name@,
{
    let mut msg = if removed {
        "Binding removed: ".to_owned()
    } else {
        "Binding not found: ".to_owned()
    };
    msg.append(name);
    msg
}

proof fn lemma_width_of_spaces(s: Seq<char>, n: nat)
    ensures
        text_width(s + spaces(n)) == text_width(s) + n,
    decreases n,
{
    if n > 0 {
        let t = s + spaces(n);
        assert(t.drop_last() =~= s + spaces((n - 1) as nat));
        assert(t.last() == ' ');
        lemma_width_of_spaces(s, (n - 1) as nat);
    } else {
        assert(s + spaces(0) =~= s);
    }
}

/// A padded cell is as wide as its column, or as wide as its text when the
/// text is wider; the text itself is kept at the front.
pub proof fn lemma_padded_width(s: Seq<char>, width: nat)
    ensures
        text_width(padded(s, width)) == if text_width(s) >= width {
            text_width(s)
        } else {
            width
        },
        padded(s, width).take(s.len() as int) == s,
{
    if text_width(s) < width {
        lemma_width_of_spaces(s, (width - text_width(s)) as nat);
        assert((s + spaces((width - text_width(s)) as nat)).take(s.len() as int) =~= s);
    } else {
        assert(s.take(s.len() as int) =~= s);
    }
}

/// `bind remove` removes exactly the bindings with the name: none is left,
/// every other binding stays, and nothing is added.
pub proof fn lemma_without_name(bs: Seq<Binding>, name: Seq<char>)
    ensures
        forall|i: int|
            0 <= i < without_name(bs, name).len() ==> (#[trigger] without_name(bs, name)[i]).name@
                != name,
        forall|i: int|
            0 <= i < bs.len() && (#[trigger] bs[i]).name@ != name ==> without_name(
                bs,
                name,
            ).contains(bs[i]),
        forall|i: int|
            0 <= i < without_name(bs, name).len() ==> bs.contains(
                #[trigger] without_name(bs, name)[i],
            ),
        without_name(bs, name).len() <= bs.len(),
        without_name(bs, name).len() == bs.len() <==> forall|i: int|
            0 <= i < bs.len() ==> (#[trigger] bs[i]).name@ != name,
    decreases bs.len(),
{
    if bs.len() > 0 {
        let rest = bs.drop_first();
        lemma_without_name(rest, name);
        let w = without_name(bs, name);
        let wr = without_name(rest, name);
        assert forall|i: int| 0 <= i < bs.len() && (#[trigger] bs[i]).name@ != name implies w.contains(
            bs[i],
        ) by {
            if i == 0 {
                assert(w[0] == bs[0]);
            } else {
                assert(bs[i] == rest[i - 1]);
                assert(wr.contains(rest[i - 1]));
                let k = choose|k: int| 0 <= k < wr.len() && wr[k] == rest[i - 1];
                if bs[0].name@ == name {
                    assert(w[k] == bs[i]);
                } else {
                    assert(w[k + 1] == bs[i]);
                }
            }
        }
        assert forall|i: int| 0 <= i < w.len() implies bs.contains(#[trigger] w[i]) by {
            if bs[0].name@ == name {
                assert(rest.contains(wr[i]));
                let k = choose|k: int| 0 <= k < rest.len() && rest[k] == wr[i];
                assert(bs[k + 1] == w[i]);
            } else if i == 0 {
                assert(bs[0] == w[0]);
            } else {
                assert(w[i] == wr[i - 1]);
                assert(rest.contains(wr[i - 1]));
                let k = choose|k: int| 0 <= k < rest.len() && rest[k] == wr[i - 1];
                assert(bs[k + 1] == w[i]);
            }
        }
        assert forall|i: int| 0 <= i < w.len() implies (#[trigger] w[i]).name@ != name by {
            if bs[0].name@ != name && i > 0 {
                assert(w[i] == wr[i - 1]);
            }
        }
        if w.len() == bs.len() {
            assert(bs[0].name@ != name);
            assert forall|i: int| 0 <= i < bs.len() implies (#[trigger] bs[i]).name@ != name by {
                if i > 0 {
                    assert(bs[i] == rest[i - 1]);
                }
            }
        }
        if forall|i: int| 0 <= i < bs.len() ==> (#[trigger] bs[i]).name@ != name {
            assert(bs[0].name@ != name);
            assert forall|i: int| 0 <= i < rest.len() implies (#[trigger] rest[i]).name@ != name by {
                assert(rest[i] == bs[i + 1]);
            }
        }
    }
}

/// A binding added with `bind add` is found by its hotkey (the first binding
/// with that hotkey is the one found).
pub proof fn lemma_added_binding_found(bs: Seq<Binding>, b: Binding)
    ensures
        crate::config::binding_hotkeys(bs.push(b)).contains(b.hotkey@),
{
    let hs = crate::config::binding_hotkeys(bs.push(b));
    assert(hs[bs.len() as int] == b.hotkey@);
}


/// East Asian wide characters take two columns and ASCII characters one:
/// hiragana and katakana (U+3041..U+30FF), CJK unified ideographs
/// (U+4E00..U+9FFF), Hangul syllables (U+AC00..U+D7A3) and the fullwidth
/// ASCII forms (U+FF01..U+FF5E) are two columns wide; every character below
/// U+0080 is one.
pub proof fn lemma_east_asian_wide_chars(c: char)
    ensures
        0x3041 <= (c as u32) <= 0x30FF ==> char_width(c) == 2,
        0x4E00 <= (c as u32) <= 0x9FFF ==> char_width(c) == 2,
        0xAC00 <= (c as u32) <= 0xD7A3 ==> char_width(c) == 2,
        0xFF01 <= (c as u32) <= 0xFF5E ==> char_width(c) == 2,
        (c as u32) < 0x80 ==> char_width(c) == 1,
{
}

/// The CLEAR cell of a binding with its own delay is that delay in seconds,
/// `0s` included, whatever the global delay, and unstarred; a binding
/// without one shows the global delay, starred: the cell it would show with
/// the global delay as its own, followed by `*`.
pub proof fn lemma_clear_cell_law(b: Binding, global: u64, other_global: u64)
    ensures
        b.clipboard_clear_after_secs matches Some(s) ==> {
            &&& clear_text(b, global) == clear_text(b, other_global)
            &&& clear_text(b, global).last() == 's'
            &&& clear_text(b, global).drop_last() == decimal(s as nat)
        },
        b.clipboard_clear_after_secs is None ==> {
            &&& clear_text(b, global).last() == '*'
            &&& clear_text(b, global).drop_last() == clear_text(
                Binding { clipboard_clear_after_secs: Some(global), ..b },
                other_global,
            )
        },
{
    match b.clipboard_clear_after_secs {
        Some(s) => {
            assert(clear_text(b, global).drop_last() =~= decimal(s as nat));
        },
        None => {
            let own = Binding { clipboard_clear_after_secs: Some(global), ..b };
            assert(clear_text(b, global).drop_last() =~= clear_text(own, other_global));
        },
    }
}

} // verus!
