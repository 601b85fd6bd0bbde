use vstd::prelude::*;
use vstd::string::*;

verus! {

/// Bit of an identity that records the shift modifier.
pub const SHIFT_FLAG: usize = 0x20000;

/// Bit of an identity that records the alt modifier.
pub const ALT_FLAG: usize = 0x40000;

/// Bit of an identity that records the ctrl modifier.
pub const CTRL_FLAG: usize = 0x80000;

/// Bit of an identity that asks the OS not to auto-repeat; always set.
pub const NO_REPEAT_FLAG: usize = 0x100000;

/// Win32 `MOD_ALT`.
pub const MOD_ALT: u32 = 1;

/// Win32 `MOD_CONTROL`.
pub const MOD_CONTROL: u32 = 2;

/// Win32 `MOD_SHIFT`.
pub const MOD_SHIFT: u32 = 4;

/// Win32 `MOD_NOREPEAT`.
pub const MOD_NOREPEAT: u32 = 0x4000;

/// Canonical identity of a hotkey: the key-scan result in the low 16 bits,
/// the modifiers and the no-repeat request in the flag bits above them.
/// The identity `0` is the invalid, unset hotkey.
#[derive(Debug, Clone, Copy, PartialEq, Eq, Structural)]
pub struct JGlobalHotkey {
    id: usize,
}

/// Why a hotkey could not be parsed or registered.
#[derive(Debug)]
pub enum JGlobalHotkeyErrors {
    NoKeySpecified,
    InvalidKey(char),
    InvalidModifier(String),
    RegisterFailed,
    /// The key token has more than one character (function keys and other
    /// named keys are not supported).
    UnsupportedKey(String),
}

/// The errors as mathematical values.
pub enum HotkeyErrorModel {
    NoKeySpecified,
    InvalidKey(char),
    InvalidModifier(Seq<char>),
    RegisterFailed,
    UnsupportedKey(Seq<char>),
}

impl JGlobalHotkeyErrors {
    pub open spec fn model(&self) -> HotkeyErrorModel {
        match self {
            JGlobalHotkeyErrors::NoKeySpecified => HotkeyErrorModel::NoKeySpecified,
            JGlobalHotkeyErrors::InvalidKey(c) => HotkeyErrorModel::InvalidKey(*c),
            JGlobalHotkeyErrors::InvalidModifier(s) => HotkeyErrorModel::InvalidModifier(s@),
            JGlobalHotkeyErrors::RegisterFailed => HotkeyErrorModel::RegisterFailed,
            JGlobalHotkeyErrors::UnsupportedKey(s) => HotkeyErrorModel::UnsupportedKey(s@),
        }
    }
}

impl View for JGlobalHotkey {
    type V = usize;

    closed spec fn view(&self) -> usize {
        self.id
    }
}

pub open spec fn shift_of(id: usize) -> bool {
    id & SHIFT_FLAG != 0
}

pub open spec fn alt_of(id: usize) -> bool {
    id & ALT_FLAG != 0
}

pub open spec fn ctrl_of(id: usize) -> bool {
    id & CTRL_FLAG != 0
}

/// The virtual key (with its key-scan shift state) held in the low 16 bits.
pub open spec fn key_code_of(id: usize) -> i16 {
    (id & 0xFFFF) as u16 as i16
}

/// Whitespace that a hotkey string may hold anywhere; it is ignored.
pub open spec fn is_blank(c: char) -> bool {
    c == ' ' || c == '\t' || c == '\n' || c == '\r' || c == '\x0C'
}

pub open spec fn ascii_lower(c: char) -> char {
    if 'A' <= c && c <= 'Z' {
        ((c as u32) + 32) as char
    } else {
        c
    }
}

pub open spec fn lower_seq(s: Seq<char>) -> Seq<char> {
    s.map_values(|c: char| ascii_lower(c))
}

/// The tokens of a hotkey string: whitespace dropped, split on `+`.
pub open spec fn split_tokens(s: Seq<char>) -> Seq<Seq<char>>
    decreases s.len(),
{
    if s.len() == 0 {
        seq![Seq::<char>::empty()]
    } else {
        let r = split_tokens(s.drop_last());
        let c = s.last();
        if is_blank(c) {
            r
        } else if c == '+' {
            r.push(Seq::<char>::empty())
        } else {
            r.drop_last().push(r.last().push(c))
        }
    }
}

pub open spec fn shift_word() -> Seq<char> {
    seq!['s', 'h', 'i', 'f', 't']
}

pub open spec fn alt_word() -> Seq<char> {
    seq!['a', 'l', 't']
}

pub open spec fn ctrl_word() -> Seq<char> {
    seq!['c', 't', 'r', 'l']
}

pub open spec fn is_known_modifier(t: Seq<char>) -> bool {
    lower_seq(t) == shift_word() || lower_seq(t) == alt_word() || lower_seq(t) == ctrl_word()
}

/// The modifier flags (shift, alt, ctrl) that the tokens ask for, or the
/// first token that names no modifier.
pub open spec fn modifier_flags(mods: Seq<Seq<char>>) -> Result<(bool, bool, bool), Seq<char>>
    decreases mods.len(),
{
    if mods.len() == 0 {
        Ok((false, false, false))
    } else {
        match modifier_flags(mods.drop_last()) {
            Err(t) => Err(t),
            Ok((s, a, c)) => {
                let t = mods.last();
                if !is_known_modifier(t) {
                    Err(t)
                } else {
                    Ok((
                        s || lower_seq(t) == shift_word(),
                        a || lower_seq(t) == alt_word(),
                        c || lower_seq(t) == ctrl_word(),
                    ))
                }
            },
        }
    }
}

/// The identity built from a key-scan result and the modifier flags.
pub open spec fn hotkey_id(scan: i16, shift: bool, alt: bool, ctrl: bool) -> usize {
    (scan as u16 as usize) | NO_REPEAT_FLAG | (if shift {
        SHIFT_FLAG
    } else {
        0
    }) | (if alt {
        ALT_FLAG
    } else {
        0
    }) | (if ctrl {
        CTRL_FLAG
    } else {
        0
    })
}

/// The character handed to the key-scan facility: the key token lower-cased,
/// when it is a single character.
pub open spec fn scan_input(s: Seq<char>) -> Option<char> {
    let key = split_tokens(s).last();
    if key.len() == 1 {
        Some(ascii_lower(key[0]))
    } else {
        None
    }
}

/// What parsing the hotkey string `s` gives when the key scan of its key
/// character returned `scan` (`-1`: the key has no virtual key).
pub open spec fn parse_spec(s: Seq<char>, scan: i16) -> Result<usize, HotkeyErrorModel> {
    parse_spec_tokens(split_tokens(s), scan)
}

/// The tokens as sequences of characters.
pub open spec fn tokens_view(v: Seq<Vec<char>>) -> Seq<Seq<char>> {
    v.map_values(|t: Vec<char>| t@)
}

pub open spec fn result_model(r: Result<JGlobalHotkey, JGlobalHotkeyErrors>) -> Result<
    usize,
    HotkeyErrorModel,
> {
    match r {
        Ok(h) => Ok(h@),
        Err(e) => Err(e.model()),
    }
}

pub proof fn lemma_split_tokens_nonempty(s: Seq<char>)
    ensures
        split_tokens(s).len() >= 1,
    decreases s.len(),
{
    if s.len() > 0 {
        lemma_split_tokens_nonempty(s.drop_last());
    }
}

/// The flag bits of a built identity are exactly the modifiers it was built
/// with, and its low 16 bits are the key-scan result.
pub proof fn lemma_hotkey_id_fields(scan: i16, shift: bool, alt: bool, ctrl: bool)
    ensures
        shift_of(hotkey_id(scan, shift, alt, ctrl)) == shift,
        alt_of(hotkey_id(scan, shift, alt, ctrl)) == alt,
        ctrl_of(hotkey_id(scan, shift, alt, ctrl)) == ctrl,
        key_code_of(hotkey_id(scan, shift, alt, ctrl)) == scan,
        hotkey_id(scan, shift, alt, ctrl) != 0,
{
    let s: usize = if shift {
        SHIFT_FLAG
    } else {
        0
    };
    let a: usize = if alt {
        ALT_FLAG
    } else {
        0
    };
    let c: usize = if ctrl {
        CTRL_FLAG
    } else {
        0
    };
    let x: usize = scan as u16 as usize;
    assert(x < 0x10000) by (bit_vector)
        requires
            x == scan as u16 as usize,
    ;
    let id = x | 0x100000usize | s | a | c;
    assert(hotkey_id(scan, shift, alt, ctrl) == id);
    assert((id & 0x20000usize != 0) == (s != 0) && (id & 0x40000usize != 0) == (a != 0) && (id
        & 0x80000usize != 0) == (c != 0) && id != 0) by (bit_vector)
        requires
            x < 0x10000,
            s == 0 || s == 0x20000,
            a == 0 || a == 0x40000,
            c == 0 || c == 0x80000,
            id == x | 0x100000usize | s | a | c,
    ;
    assert(((id & 0xFFFF) as u16 as i16) == scan) by (bit_vector)
        requires
            x == scan as u16 as usize,
            s == 0 || s == 0x20000,
            a == 0 || a == 0x40000,
            c == 0 || c == 0x80000,
            id == x | 0x100000usize | s | a | c,
    ;
}

proof fn lemma_lower_seq_idem(t: Seq<char>)
    ensures
        lower_seq(lower_seq(t)) == lower_seq(t),
{
    assert(lower_seq(lower_seq(t)) =~= lower_seq(t));
}

/// Every token lower-cased.
pub open spec fn lower_tokens(ts: Seq<Seq<char>>) -> Seq<Seq<char>> {
    ts.map_values(|t: Seq<char>| lower_seq(t))
}

/// Whether one of the tokens names the modifier `w`.
pub open spec fn names_modifier(mods: Seq<Seq<char>>, w: Seq<char>) -> bool {
    exists|j: int| 0 <= j < mods.len() && lower_seq(#[trigger] mods[j]) == w
}

proof fn lemma_split_lower(s: Seq<char>)
    ensures
        split_tokens(lower_seq(s)) == lower_tokens(split_tokens(s)),
    decreases s.len(),
{
    if s.len() > 0 {
        let l = lower_seq(s);
        assert(l.drop_last() =~= lower_seq(s.drop_last()));
        lemma_split_lower(s.drop_last());
        lemma_split_tokens_nonempty(s.drop_last());
        let r = split_tokens(s.drop_last());
        let c = s.last();
        assert(l.last() == ascii_lower(c));
        let lr = lower_tokens(r);
        assert(split_tokens(l) == {
            let c2 = l.last();
            if is_blank(c2) {
                split_tokens(l.drop_last())
            } else if c2 == '+' {
                split_tokens(l.drop_last()).push(Seq::<char>::empty())
            } else {
                split_tokens(l.drop_last()).drop_last().push(split_tokens(l.drop_last()).last().push(c2))
            }
        });
        if is_blank(c) {
            assert(is_blank(ascii_lower(c)));
        } else if c == '+' {
            assert(lower_seq(Seq::<char>::empty()) =~= Seq::<char>::empty());
            assert(lower_tokens(r.push(Seq::<char>::empty())) =~= lr.push(Seq::<char>::empty()));
        } else {
            assert(!is_blank(ascii_lower(c)) && ascii_lower(c) != '+');
            assert(lower_seq(r.last().push(c)) =~= lower_seq(r.last()).push(ascii_lower(c)));
            assert(lower_tokens(r.drop_last().push(r.last().push(c))) =~= lr.drop_last().push(
                lr.last().push(ascii_lower(c)),
            ));
        }
    } else {
        assert(lower_seq(s) =~= Seq::<char>::empty());
        assert(lower_seq(Seq::<char>::empty()) =~= Seq::<char>::empty());
        assert(lower_tokens(seq![Seq::<char>::empty()]) =~= seq![Seq::<char>::empty()]);
    }
}

proof fn lemma_flags_lower(mods: Seq<Seq<char>>)
    requires
        modifier_flags(mods) is Ok,
    ensures
        modifier_flags(lower_tokens(mods)) == modifier_flags(mods),
    decreases mods.len(),
{
    if mods.len() > 0 {
        assert(lower_tokens(mods).drop_last() =~= lower_tokens(mods.drop_last()));
        lemma_flags_lower(mods.drop_last());
        lemma_lower_seq_idem(mods.last());
    }
}

/// Parsing ignores case: two hotkey strings that are equal once
/// lower-cased, each with a single-character key and only known modifiers
/// (in particular, with no modifier at all), hand the same character to the
/// key scan and, for the same scan result, give the same identity.
pub proof fn lemma_parse_ignores_case(s1: Seq<char>, s2: Seq<char>, scan: i16)
    requires
        lower_seq(s1) == lower_seq(s2),
        split_tokens(s1).last().len() == 1,
        split_tokens(s2).last().len() == 1,
        modifier_flags(split_tokens(s1).drop_last()) is Ok,
        modifier_flags(split_tokens(s2).drop_last()) is Ok,
    ensures
        scan_input(s1) == scan_input(s2),
        parse_spec(s1, scan) == parse_spec(s2, scan),
{
    lemma_parse_same_as_lower(s1, scan);
    lemma_parse_same_as_lower(s2, scan);
}

proof fn lemma_parse_same_as_lower(s: Seq<char>, scan: i16)
    requires
        split_tokens(s).last().len() == 1,
        modifier_flags(split_tokens(s).drop_last()) is Ok,
    ensures
        scan_input(lower_seq(s)) == scan_input(s),
        parse_spec(lower_seq(s), scan) == parse_spec(s, scan),
{
    let toks = split_tokens(s);
    lemma_split_tokens_nonempty(s);
    lemma_split_lower(s);
    let ltoks = split_tokens(lower_seq(s));
    assert(ltoks.last() == lower_seq(toks.last()));
    assert(ltoks.drop_last() =~= lower_tokens(toks.drop_last()));
    lemma_flags_lower(toks.drop_last());
    let key = toks.last();
    assert(lower_seq(key)[0] == ascii_lower(key[0]));
    assert(ascii_lower(ascii_lower(key[0])) == ascii_lower(key[0]));
}

/// All tokens known: no modifier error.
proof fn lemma_flags_ok(mods: Seq<Seq<char>>)
    requires
        forall|j: int| 0 <= j < mods.len() ==> is_known_modifier(#[trigger] mods[j]),
    ensures
        modifier_flags(mods) is Ok,
    decreases mods.len(),
{
    if mods.len() > 0 {
        lemma_flags_ok(mods.drop_last());
    }
}

proof fn lemma_flags_first_unknown(mods: Seq<Seq<char>>, i: int)
    requires
        0 <= i < mods.len(),
        !is_known_modifier(mods[i]),
        forall|j: int| 0 <= j < i ==> is_known_modifier(#[trigger] mods[j]),
    ensures
        modifier_flags(mods) == Err::<(bool, bool, bool), Seq<char>>(mods[i]),
    decreases mods.len(),
{
    if i == mods.len() - 1 {
        lemma_flags_ok(mods.drop_last());
    } else {
        lemma_flags_first_unknown(mods.drop_last(), i);
    }
}

/// A modifier token outside shift, alt and ctrl makes parsing fail with that
/// token, as supplied (case kept, whitespace dropped); with several, the
/// first. This holds where the key itself is valid: a key error comes first.
pub proof fn lemma_invalid_modifier_reported(s: Seq<char>, scan: i16, i: int)
    requires
        split_tokens(s).last().len() == 1,
        scan != -1,
        0 <= i < split_tokens(s).len() - 1,
        !is_known_modifier(split_tokens(s)[i]),
        forall|j: int| 0 <= j < i ==> is_known_modifier(#[trigger] split_tokens(s)[j]),
    ensures
        parse_spec(s, scan) == Err::<usize, HotkeyErrorModel>(
            HotkeyErrorModel::InvalidModifier(split_tokens(s)[i]),
        ),
{
    let mods = split_tokens(s).drop_last();
    assert forall|j: int| 0 <= j < i implies is_known_modifier(#[trigger] mods[j]) by {
        assert(mods[j] == split_tokens(s)[j]);
    }
    lemma_flags_first_unknown(mods, i);
}

/// An empty hotkey string, or one that ends in `+`, has no key.
pub proof fn lemma_empty_key(s: Seq<char>, scan: i16)
    requires
        s.len() == 0 || s.last() == '+',
    ensures
        parse_spec(s, scan) == Err::<usize, HotkeyErrorModel>(HotkeyErrorModel::NoKeySpecified),
{
}

/// A parsed identity reports exactly the modifiers that the hotkey string
/// named, keeps the key-scan result as its virtual key, and is valid.
pub proof fn lemma_parsed_modifiers(s: Seq<char>, scan: i16)
    requires
        parse_spec(s, scan) is Ok,
    ensures
        ({
            let id = parse_spec(s, scan)->Ok_0;
            let mods = split_tokens(s).drop_last();
            &&& shift_of(id) == names_modifier(mods, shift_word())
            &&& alt_of(id) == names_modifier(mods, alt_word())
            &&& ctrl_of(id) == names_modifier(mods, ctrl_word())
            &&& key_code_of(id) == scan
            &&& id != 0
        }),
{
    let mods = split_tokens(s).drop_last();
    lemma_flags_named(mods);
    let f = modifier_flags(mods)->Ok_0;
    lemma_hotkey_id_fields(scan, f.0, f.1, f.2);
}

proof fn lemma_names_split(mods: Seq<Seq<char>>, w: Seq<char>)
    requires
        mods.len() > 0,
    ensures
        names_modifier(mods, w) == (names_modifier(mods.drop_last(), w) || lower_seq(mods.last())
            == w),
{
    let d = mods.drop_last();
    if names_modifier(mods, w) {
        let j = choose|j: int| 0 <= j < mods.len() && lower_seq(#[trigger] mods[j]) == w;
        if j < d.len() {
            assert(d[j] == mods[j]);
        }
    }
    if names_modifier(d, w) {
        let j = choose|j: int| 0 <= j < d.len() && lower_seq(#[trigger] d[j]) == w;
        assert(d[j] == mods[j]);
    }
    if lower_seq(mods.last()) == w {
        assert(mods[mods.len() - 1] == mods.last());
    }
}

proof fn lemma_flags_named(mods: Seq<Seq<char>>)
    requires
        modifier_flags(mods) is Ok,
    ensures
        ({
            let f = modifier_flags(mods)->Ok_0;
            &&& f.0 == names_modifier(mods, shift_word())
            &&& f.1 == names_modifier(mods, alt_word())
            &&& f.2 == names_modifier(mods, ctrl_word())
        }),
    decreases mods.len(),
{
    if mods.len() > 0 {
        let d = mods.drop_last();
        lemma_flags_named(d);
        lemma_names_split(mods, shift_word());
        lemma_names_split(mods, alt_word());
        lemma_names_split(mods, ctrl_word());
    }
}

/// `A`-`Z` map to `a`-`z`, every other character stays.
fn to_ascii_lower(c: char) -> (r: char)
    ensures
        r == ascii_lower(c),
{
    if 'A' <= c && c <= 'Z' {
        ((c as u8) + 32) as char
    } else {
        c
    }
}

/// Relies on `String`'s `FromIterator<&char>`: the characters in order.
#[verifier::external_body]
fn string_from_chars(v: &Vec<char>) -> (r: String)
    ensures
        r@ == v@,
{
    v.iter().collect()
}

/// Splits a hotkey string into its tokens (see `split_tokens`).
fn tokenize(repr: &str) -> (r: Vec<Vec<char>>)
    ensures
        tokens_view(r@) == split_tokens(repr@),
{
    let n = repr.unicode_len();
    let mut done: Vec<Vec<char>> = Vec::new();
    let mut cur: Vec<char> = Vec::new();
    let mut i: usize = 0;
    assert(repr@.take(0) =~= Seq::<char>::empty());
    assert(tokens_view(done@).push(cur@) =~= seq![Seq::<char>::empty()]);
    while i < n
        invariant
            n == repr@.len(),
            i <= n,
            split_tokens(repr@.take(i as int)) == tokens_view(done@).push(cur@),
        decreases n - i,
    {
        let c = repr.get_char(i);
        let ghost before = tokens_view(done@).push(cur@);
        assert(repr@.take(i + 1).drop_last() =~= repr@.take(i as int));
        assert(repr@.take(i + 1).last() == c);
        if c == ' ' || c == '\t' || c == '\n' || c == '\r' || c == '\x0C' {
        } else if c == '+' {
            let old_cur = cur;
            done.push(old_cur);
            cur = Vec::new();
            assert(tokens_view(done@).push(cur@) =~= before.push(Seq::<char>::empty()));
        } else {
            cur.push(c);
            assert(tokens_view(done@).push(cur@) =~= before.drop_last().push(before.last().push(c)));
        }
        i = i + 1;
    }
    assert(repr@.take(n as int) =~= repr@);
    done.push(cur);
    proof {
        let ghost d = tokens_view(done@);
        assert(d =~= split_tokens(repr@));
    }
    done
}

/// Whether the token, lower-cased, is `word`.
fn lower_eq(t: &Vec<char>, word: &Vec<char>) -> (r: bool)
    requires
        word@ == lower_seq(word@),
    ensures
        r == (lower_seq(t@) == word@),
{
    if t.len() != word.len() {
        proof {
            if lower_seq(t@) == word@ {
                assert(lower_seq(t@).len() == t@.len());
            }
        }
        return false;
    }
    let mut i: usize = 0;
    while i < t.len()
        invariant
            t.len() == word.len(),
            i <= t.len(),
            forall|j: int| 0 <= j < i ==> ascii_lower(t@[j]) == word@[j],
        decreases t.len() - i,
    {
        if to_ascii_lower(t[i]) != word[i] {
            proof {
                assert(lower_seq(t@)[i as int] == ascii_lower(t@[i as int]));
            }
            return false;
        }
        i = i + 1;
    }
    assert(lower_seq(t@) =~= word@);
    true
}

/// Checks the modifier tokens in order; see `modifier_flags`.
fn check_modifiers(toks: &Vec<Vec<char>>, count: usize) -> (r: Result<(bool, bool, bool), usize>)
    requires
        count <= toks.len(),
    ensures
        match r {
            Ok(f) => modifier_flags(tokens_view(toks@).take(count as int)) == Ok::<
                (bool, bool, bool),
                Seq<char>,
            >(f),
            Err(j) => j < count && modifier_flags(tokens_view(toks@).take(count as int)) == Err::<
                (bool, bool, bool),
                Seq<char>,
            >(tokens_view(toks@)[j as int]),
        },
{
    let shift_w: Vec<char> = vec!['s', 'h', 'i', 'f', 't'];
    let alt_w: Vec<char> = vec!['a', 'l', 't'];
    let ctrl_w: Vec<char> = vec!['c', 't', 'r', 'l'];
    assert(shift_w@ =~= shift_word());
    assert(alt_w@ =~= alt_word());
    assert(ctrl_w@ =~= ctrl_word());
    assert(lower_seq(shift_word()) =~= shift_word());
    assert(lower_seq(alt_word()) =~= alt_word());
    assert(lower_seq(ctrl_word()) =~= ctrl_word());
    let ghost d = tokens_view(toks@);
    let mut s = false;
    let mut a = false;
    let mut c = false;
    let mut i: usize = 0;
    assert(d.take(0) =~= Seq::<Seq<char>>::empty());
    while i < count
        invariant
            count <= toks.len(),
            d == tokens_view(toks@),
            i <= count,
            shift_w@ == shift_word(),
            alt_w@ == alt_word(),
            ctrl_w@ == ctrl_word(),
            lower_seq(shift_w@) == shift_w@,
            lower_seq(alt_w@) == alt_w@,
            lower_seq(ctrl_w@) == ctrl_w@,
            modifier_flags(d.take(i as int)) == Ok::<(bool, bool, bool), Seq<char>>((s, a, c)),
        decreases count - i,
    {
        assert(d.take(i + 1).drop_last() =~= d.take(i as int));
        assert(d.take(i + 1).last() == toks[i as int]@);
        let is_s = lower_eq(&toks[i], &shift_w);
        let is_a = lower_eq(&toks[i], &alt_w);
        let is_c = lower_eq(&toks[i], &ctrl_w);
        if !is_s && !is_a && !is_c {
            proof {
                lemma_flags_error_kept(d, (i + 1) as int, count as int);
            }
            return Err(i);
        }
        s = s || is_s;
        a = a || is_a;
        c = c || is_c;
        i = i + 1;
    }
    Ok((s, a, c))
}

/// An error found among the first `i` tokens is the error of any longer prefix.
proof fn lemma_flags_error_kept(d: Seq<Seq<char>>, i: int, k: int)
    requires
        0 <= i <= k <= d.len(),
        modifier_flags(d.take(i)) is Err,
    ensures
        modifier_flags(d.take(k)) == modifier_flags(d.take(i)),
    decreases k - i,
{
    if k > i {
        lemma_flags_error_kept(d, i, k - 1);
        assert(d.take(k).drop_last() =~= d.take(k - 1));
    }
}

impl JGlobalHotkey {
    pub fn is_valid(&self) -> (r: bool)
        ensures
            r == (self@ != 0),
    {
        self.id > 0
    }

    pub fn modifier_shift(&self) -> (r: bool)
        ensures
            r == shift_of(self@),
    {
        self.id & SHIFT_FLAG != 0
    }

    pub fn modifier_alt(&self) -> (r: bool)
        ensures
            r == alt_of(self@),
    {
        self.id & ALT_FLAG != 0
    }

    pub fn modifier_ctrl(&self) -> (r: bool)
        ensures
            r == ctrl_of(self@),
    {
        self.id & CTRL_FLAG != 0
    }

    /// The virtual key to register and to query the state of.
    pub fn vk_code(&self) -> (r: i16)
        ensures
            r == key_code_of(self@),
    {
        #[verifier::truncate] ((self.id & 0xFFFF) as u16 as i16)
    }

    /// The OS modifier flags for registering this hotkey: no-repeat always,
    /// and one flag for each modifier of the identity.
    pub fn modifiers(&self) -> (r: u32)
        ensures
            r == MOD_NOREPEAT | (if shift_of(self@) {
                MOD_SHIFT
            } else {
                0
            }) | (if alt_of(self@) {
                MOD_ALT
            } else {
                0
            }) | (if ctrl_of(self@) {
                MOD_CONTROL
            } else {
                0
            }),
    {
        MOD_NOREPEAT | (if self.modifier_shift() {
            MOD_SHIFT
        } else {
            0
        }) | (if self.modifier_alt() {
            MOD_ALT
        } else {
            0
        }) | (if self.modifier_ctrl() {
            MOD_CONTROL
        } else {
            0
        })
    }

    /// The raw identity, as handed to and received from the OS.
    pub fn id(&self) -> (r: usize)
        ensures
            r == self@,
    {
        self.id
    }

    pub closed spec fn from_id_spec(id: usize) -> JGlobalHotkey {
        JGlobalHotkey { id }
    }

    pub open spec fn modifiers_spec(&self) -> u32 {
        MOD_NOREPEAT | (if shift_of(self@) {
            MOD_SHIFT
        } else {
            0
        }) | (if alt_of(self@) {
            MOD_ALT
        } else {
            0
        }) | (if ctrl_of(self@) {
            MOD_CONTROL
        } else {
            0
        })
    }

    pub proof fn lemma_from_id_view(h: JGlobalHotkey)
        ensures
            h == Self::from_id_spec(h@),
            Self::from_id_spec(h@)@ == h@,
    {
    }

    /// The hotkey whose identity is `id`, as carried by a hotkey notification.
    pub fn from_id(id: usize) -> (r: JGlobalHotkey)
        ensures
            r@ == id,
            r == Self::from_id_spec(id),
    {
        JGlobalHotkey { id }
    }

    fn from_tokens(toks: &Vec<Vec<char>>, scan: i16) -> (r: Result<JGlobalHotkey, JGlobalHotkeyErrors>)
        requires
            tokens_view(toks@).len() >= 1,
        ensures
            result_model(r) == parse_spec_tokens(tokens_view(toks@), scan),
            r matches Ok(h) ==> {
                let mods = modifier_flags(tokens_view(toks@).drop_last());
                &&& mods is Ok
                &&& shift_of(h@) == mods->Ok_0.0
                &&& alt_of(h@) == mods->Ok_0.1
                &&& ctrl_of(h@) == mods->Ok_0.2
                &&& key_code_of(h@) == scan
                &&& h@ != 0
            },
    {
        let ghost d = tokens_view(toks@);
        let last = toks.len() - 1;
        let key = &toks[last];
        assert(key@ == d.last());
        if key.len() == 0 {
            return Err(JGlobalHotkeyErrors::NoKeySpecified);
        }
        if key.len() > 1 {
            return Err(JGlobalHotkeyErrors::UnsupportedKey(string_from_chars(key)));
        }
        if scan == -1 {
            return Err(JGlobalHotkeyErrors::InvalidKey(to_ascii_lower(key[0])));
        }
        assert(d.take(last as int) =~= d.drop_last());
        match check_modifiers(toks, last) {
            Err(j) => Err(JGlobalHotkeyErrors::InvalidModifier(string_from_chars(&toks[j]))),
            Ok((s, a, c)) => {
                let id: usize = ((#[verifier::truncate] (scan as u16)) as usize) | NO_REPEAT_FLAG | (if s {
                    SHIFT_FLAG
                } else {
                    0
                }) | (if a {
                    ALT_FLAG
                } else {
                    0
                }) | (if c {
                    CTRL_FLAG
                } else {
                    0
                });
                proof {
                    lemma_hotkey_id_fields(scan, s, a, c);
                }
                Ok(JGlobalHotkey { id })
            },
        }
    }

    /// Parses a hotkey string such as `"ctrl + shift + a"`: whitespace is
    /// ignored, tokens are split on `+`, the last one is the key and the
    /// others are modifiers among shift, alt and ctrl, in any case. The key
    /// character, lower-cased, is resolved by `key_scan` (the platform's
    /// keyboard-layout key scan, `-1` when no key produces it), which is
    /// called at most once.
    pub fn from_str<F: Fn(char) -> i16>(repr: &str, key_scan: F) -> (r: Result<
        JGlobalHotkey,
        JGlobalHotkeyErrors,
    >)
        requires
            forall|c: char| key_scan.requires((c,)),
        ensures
            match scan_input(repr@) {
                Some(c) => exists|scan: i16|
                    key_scan.ensures((c,), scan) && result_model(r) == parse_spec(repr@, scan),
                None => result_model(r) == parse_spec(repr@, -1i16),
            },
    {
        let toks = tokenize(repr);
        proof {
            lemma_split_tokens_nonempty(repr@);
        }
        let last = toks.len() - 1;
        assert(toks[last as int]@ == split_tokens(repr@).last());
        if toks[last].len() == 1 {
            let c = to_ascii_lower(toks[last][0]);
            let scan = key_scan(c);
            let r = Self::from_tokens(&toks, scan);
            assert(key_scan.ensures((c,), scan) && result_model(r) == parse_spec(repr@, scan));
            r
        } else {
            Self::from_tokens(&toks, -1)
        }
    }
}

/// `parse_spec` over tokens that are already split.
pub open spec fn parse_spec_tokens(toks: Seq<Seq<char>>, scan: i16) -> Result<usize, HotkeyErrorModel> {
    let key = toks.last();
    let mods = toks.drop_last();
    if key.len() == 0 {
        Err(HotkeyErrorModel::NoKeySpecified)
    } else if key.len() > 1 {
        Err(HotkeyErrorModel::UnsupportedKey(key))
    } else if scan == -1 {
        Err(HotkeyErrorModel::InvalidKey(ascii_lower(key[0])))
    } else {
        match modifier_flags(mods) {
            Err(t) => Err(HotkeyErrorModel::InvalidModifier(t)),
            Ok((sh, a, c)) => Ok(hotkey_id(scan, sh, a, c)),
        }
    }
}

impl Default for JGlobalHotkey {
    fn default() -> (r: Self)
        ensures
            r@ == 0,
    {
        JGlobalHotkey { id: 0 }
    }
}

} // verus!
