//! Key bindings: key combinations, the commands they trigger, parsing of
//! key names, the built-in presets and the merging of user overrides.
use vstd::prelude::*;

use crate::text::chars_of;

verus! {

/// What a key press asks the viewer to do.
#[derive(Debug, Clone, Copy, PartialEq, Eq, Hash, Structural)]
pub enum Command {
    Quit,
    Reload,
    SelectNext,
    SelectPrev,
    NextSuite,
    PrevSuite,
    RightDwim,
    LeftDwim,
    ToggleDwim,
    ToggleSuite,
    OpenDetail,
    TogglePane,
    ShowHelp,
    ToggleDetail,
    ToggleFocus,
    ScrollDown,
    ScrollUp,
    ScrollLeft,
    ScrollRight,
    PageDown,
    PageUp,
}

/// A key, as the terminal reports it.
#[derive(Debug, Clone, Copy, PartialEq, Eq, Hash, Structural)]
pub enum KeyCode {
    Char(char),
    Esc,
    Enter,
    Tab,
    Backspace,
    Delete,
    Up,
    Down,
    Left,
    Right,
    Home,
    End,
    PageUp,
    PageDown,
    /// Any key no binding can name.
    Other,
}

/// Modifier bits, laid out as the terminal library lays them out.
pub const SHIFT: u8 = 1;

pub const CONTROL: u8 = 2;

pub const ALT: u8 = 4;

pub const NO_MODIFIERS: u8 = 0;

/// A key press: the key and the modifier bits held with it.
#[derive(Debug, Clone, Copy, PartialEq, Eq, Hash, Structural)]
pub struct KeyEvent {
    pub code: KeyCode,
    pub modifiers: u8,
}

/// A key together with its modifiers, as bindings name it.
#[derive(Debug, Clone, Copy, PartialEq, Eq, Hash, Structural)]
pub struct KeyCombo {
    pub code: KeyCode,
    pub modifiers: u8,
}

/// The combination a press is looked up by: SHIFT is ignored on character
/// keys, since the character itself already tells upper from lower case.
pub open spec fn combo_of(key: KeyEvent) -> KeyCombo {
    KeyCombo {
        code: key.code,
        modifiers: match key.code {
            KeyCode::Char(_) => key.modifiers & 0xfeu8,
            _ => key.modifiers,
        },
    }
}

impl KeyCombo {
    pub fn plain(code: KeyCode) -> (r: Self)
        ensures
            r == (KeyCombo { code, modifiers: NO_MODIFIERS }),
    {
        KeyCombo { code, modifiers: NO_MODIFIERS }
    }

    pub fn ctrl(code: KeyCode) -> (r: Self)
        ensures
            r == (KeyCombo { code, modifiers: CONTROL }),
    {
        KeyCombo { code, modifiers: CONTROL }
    }

    pub fn from_key_event(key: &KeyEvent) -> (r: Self)
        ensures
            r == combo_of(*key),
    {
        let modifiers = match key.code {
            KeyCode::Char(_) => key.modifiers & 0xfe,
            _ => key.modifiers,
        };
        KeyCombo { code: key.code, modifiers }
    }
}

/// The key a (lower-case) name stands for: a named key, or the one
/// character of a one-byte (ASCII) name.
pub open spec fn key_code_spec(s: Seq<char>) -> Option<KeyCode> {
    if s == seq!['e', 's', 'c'] || s == seq!['e', 's', 'c', 'a', 'p', 'e'] {
        Some(KeyCode::Esc)
    } else if s == seq!['e', 'n', 't', 'e', 'r'] || s == seq!['r', 'e', 't', 'u', 'r', 'n'] {
        Some(KeyCode::Enter)
    } else if s == seq!['t', 'a', 'b'] {
        Some(KeyCode::Tab)
    } else if s == seq!['b', 'a', 'c', 'k', 's', 'p', 'a', 'c', 'e'] {
        Some(KeyCode::Backspace)
    } else if s == seq!['d', 'e', 'l', 'e', 't', 'e'] || s == seq!['d', 'e', 'l'] {
        Some(KeyCode::Delete)
    } else if s == seq!['u', 'p'] {
        Some(KeyCode::Up)
    } else if s == seq!['d', 'o', 'w', 'n'] {
        Some(KeyCode::Down)
    } else if s == seq!['l', 'e', 'f', 't'] {
        Some(KeyCode::Left)
    } else if s == seq!['r', 'i', 'g', 'h', 't'] {
        Some(KeyCode::Right)
    } else if s == seq!['h', 'o', 'm', 'e'] {
        Some(KeyCode::Home)
    } else if s == seq!['e', 'n', 'd'] {
        Some(KeyCode::End)
    } else if s == seq!['p', 'a', 'g', 'e', 'u', 'p'] {
        Some(KeyCode::PageUp)
    } else if s == seq!['p', 'a', 'g', 'e', 'd', 'o', 'w', 'n'] {
        Some(KeyCode::PageDown)
    } else if s.len() == 1 && (s[0] as u32) < 128 {
        Some(KeyCode::Char(s[0]))
    } else {
        None
    }
}

pub open spec fn ctrl_prefix() -> Seq<char> {
    seq!['c', 't', 'r', 'l', '+']
}

/// The combination a lower-case key name denotes: `ctrl+` then a key
/// name, or a bare key name.
pub open spec fn combo_spec(s: Seq<char>) -> Option<KeyCombo> {
    if s.len() >= 5 && s.take(5) == ctrl_prefix() {
        match key_code_spec(s.skip(5)) {
            Some(c) => Some(KeyCombo { code: c, modifiers: CONTROL }),
            None => None,
        }
    } else {
        match key_code_spec(s) {
            Some(c) => Some(KeyCombo { code: c, modifiers: NO_MODIFIERS }),
            None => None,
        }
    }
}

/// The key name proper: what follows `ctrl+`, or the whole name.
pub open spec fn key_part(s: Seq<char>) -> Seq<char> {
    if s.len() >= 5 && s.take(5) == ctrl_prefix() {
        s.skip(5)
    } else {
        s
    }
}

/// The message a key name that names no key is refused with.
pub open spec fn unknown_key_message(s: Seq<char>) -> Seq<char> {
    seq!['u', 'n', 'k', 'n', 'o', 'w', 'n', ' ', 'k', 'e', 'y', ':', ' '] + s
}

/// Calls `String::push`: the string gains `c` at its end.
#[verifier::external_body]
pub(crate) fn push_char(s: &mut String, c: char)
    ensures
        final(s)@ == old(s)@.push(c),
{
    s.push(c);
}

fn seq_is(s: &Vec<char>, from: usize, lit: &str) -> (r: bool)
    requires
        from <= s@.len(),
    ensures
        r == (s@.skip(from as int) == lit@),
{
    let l = chars_of(lit);
    let n = s.len() - from;
    if l.len() != n {
        proof {
            if s@.skip(from as int) == lit@ {
                assert(s@.skip(from as int).len() == n);
            }
        }
        return false;
    }
    let mut i: usize = 0;
    while i < n
        invariant
            n == s@.len() - from,
            from + n == s@.len(),
            from + n == s.len(),
            l@ == lit@,
            l@.len() == n,
            i <= n,
            forall|j: int| 0 <= j < i ==> s@[from + j] == l@[j],
        decreases n - i,
    {
        if s[from + i] != l[i] {
            assert(s@.skip(from as int)[i as int] != lit@[i as int]);
            return false;
        }
        i = i + 1;
    }
    assert(s@.skip(from as int) =~= lit@);
    true
}

fn key_code_from(s: &Vec<char>, from: usize) -> (r: Option<KeyCode>)
    requires
        from <= s@.len(),
    ensures
        r == key_code_spec(s@.skip(from as int)),
{
    proof {
        reveal_strlit("esc");
        assert("esc"@ =~= seq!['e', 's', 'c']);
        reveal_strlit("escape");
        assert("escape"@ =~= seq!['e', 's', 'c', 'a', 'p', 'e']);
        reveal_strlit("enter");
        assert("enter"@ =~= seq!['e', 'n', 't', 'e', 'r']);
        reveal_strlit("return");
        assert("return"@ =~= seq!['r', 'e', 't', 'u', 'r', 'n']);
        reveal_strlit("tab");
        assert("tab"@ =~= seq!['t', 'a', 'b']);
        reveal_strlit("backspace");
        assert("backspace"@ =~= seq!['b', 'a', 'c', 'k', 's', 'p', 'a', 'c', 'e']);
        reveal_strlit("delete");
        assert("delete"@ =~= seq!['d', 'e', 'l', 'e', 't', 'e']);
        reveal_strlit("del");
        assert("del"@ =~= seq!['d', 'e', 'l']);
        reveal_strlit("up");
        assert("up"@ =~= seq!['u', 'p']);
        reveal_strlit("down");
        assert("down"@ =~= seq!['d', 'o', 'w', 'n']);
        reveal_strlit("left");
        assert("left"@ =~= seq!['l', 'e', 'f', 't']);
        reveal_strlit("right");
        assert("right"@ =~= seq!['r', 'i', 'g', 'h', 't']);
        reveal_strlit("home");
        assert("home"@ =~= seq!['h', 'o', 'm', 'e']);
        reveal_strlit("end");
        assert("end"@ =~= seq!['e', 'n', 'd']);
        reveal_strlit("pageup");
        assert("pageup"@ =~= seq!['p', 'a', 'g', 'e', 'u', 'p']);
        reveal_strlit("pagedown");
        assert("pagedown"@ =~= seq!['p', 'a', 'g', 'e', 'd', 'o', 'w', 'n']);
    }
    if seq_is(s, from, "esc") || seq_is(s, from, "escape") {
        Some(KeyCode::Esc)
    } else if seq_is(s, from, "enter") || seq_is(s, from, "return") {
        Some(KeyCode::Enter)
    } else if seq_is(s, from, "tab") {
        Some(KeyCode::Tab)
    } else if seq_is(s, from, "backspace") {
        Some(KeyCode::Backspace)
    } else if seq_is(s, from, "delete") || seq_is(s, from, "del") {
        Some(KeyCode::Delete)
    } else if seq_is(s, from, "up") {
        Some(KeyCode::Up)
    } else if seq_is(s, from, "down") {
        Some(KeyCode::Down)
    } else if seq_is(s, from, "left") {
        Some(KeyCode::Left)
    } else if seq_is(s, from, "right") {
        Some(KeyCode::Right)
    } else if seq_is(s, from, "home") {
        Some(KeyCode::Home)
    } else if seq_is(s, from, "end") {
        Some(KeyCode::End)
    } else if seq_is(s, from, "pageup") {
        Some(KeyCode::PageUp)
    } else if seq_is(s, from, "pagedown") {
        Some(KeyCode::PageDown)
    } else if s.len() - from == 1 && (s[from] as u32) < 128 {
        assert(s@.skip(from as int)[0] == s@[from as int]);
        Some(KeyCode::Char(s[from]))
    } else {
        None
    }
}

/// Parses a key name that is already in lower case: `ctrl+` followed by
/// a key name, or a key name. Named keys are `esc`/`escape`,
/// `enter`/`return`, `tab`, `backspace`, `delete`/`del`, the four
/// arrows, `home`, `end`, `pageup` and `pagedown`; any other name of one
/// byte (an ASCII character) is that character.
pub fn parse_lowered(s: &str) -> (r: Result<KeyCombo, String>)
    ensures
        match r {
            Ok(c) => combo_spec(s@) == Some(c),
            Err(e) => combo_spec(s@) is None && e@ == unknown_key_message(key_part(s@)),
        },
{
    let cs = chars_of(s);
    proof {
        reveal_strlit("ctrl+");
    }
    let has_ctrl = cs.len() >= 5 && cs[0] == 'c' && cs[1] == 't' && cs[2] == 'r' && cs[3] == 'l'
        && cs[4] == '+';
    assert(has_ctrl == (s@.len() >= 5 && s@.take(5) == ctrl_prefix())) by {
        if s@.len() >= 5 && s@.take(5) == ctrl_prefix() {
            assert(s@.take(5)[0] == 'c');
            assert(s@.take(5)[1] == 't');
            assert(s@.take(5)[2] == 'r');
            assert(s@.take(5)[3] == 'l');
            assert(s@.take(5)[4] == '+');
        }
        if has_ctrl {
            assert(s@.take(5) =~= ctrl_prefix());
        }
    }
    let code = if has_ctrl {
        key_code_from(&cs, 5)
    } else {
        assert(cs@.skip(0) =~= cs@);
        key_code_from(&cs, 0)
    };
    match code {
        Some(c) => if has_ctrl {
            Ok(KeyCombo::ctrl(c))
        } else {
            Ok(KeyCombo::plain(c))
        },
        None => {
            let mut e = String::from_str("unknown key: ");
            proof {
                reveal_strlit("unknown key: ");
            }
            let from: usize = if has_ctrl {
                5
            } else {
                0
            };
            let mut i: usize = from;
            let n = cs.len();
            let ghost start = e@;
            assert(cs@.subrange(from as int, from as int) =~= Seq::<char>::empty());
            while i < n
                invariant
                    n == cs@.len(),
                    cs@ == s@,
                    from <= i <= n,
                    from == (if has_ctrl { 5usize } else { 0usize }),
                    e@ == start + cs@.subrange(from as int, i as int),
                decreases n - i,
            {
                push_char(&mut e, cs[i]);
                assert(e@ =~= start + cs@.subrange(from as int, i + 1));
                i = i + 1;
            }
            assert(e@ =~= unknown_key_message(key_part(s@)));
            Err(e)
        },
    }
}

/// Names what `str::to_lowercase` makes of a string's characters.
pub uninterp spec fn lowercase(s: Seq<char>) -> Seq<char>;

/// Calls `str::to_lowercase`. Claimed: the result is `lowercase` of the
/// argument's characters; nothing more is said of Unicode case mapping.
#[verifier::external_body]
fn to_lowercase(s: &str) -> (r: String)
    ensures
        r@ == lowercase(s@),
{
    s.to_lowercase()
}

impl KeyCombo {
    /// Parses a key name in any case: lowered first, then read as
    /// `parse_lowered` reads it.
    pub fn parse(s: &str) -> (r: Result<KeyCombo, String>)
        ensures
            match r {
                Ok(c) => combo_spec(lowercase(s@)) == Some(c),
                Err(e) => combo_spec(lowercase(s@)) is None && e@ == unknown_key_message(
                    key_part(lowercase(s@)),
                ),
            },
    {
        let lowered = to_lowercase(s);
        parse_lowered(lowered.as_str())
    }
}

impl std::str::FromStr for KeyCombo {
    type Err = String;

    fn from_str(s: &str) -> (r: Result<Self, Self::Err>)
        ensures
            match r {
                Ok(c) => combo_spec(lowercase(s@)) == Some(c),
                Err(e) => combo_spec(lowercase(s@)) is None && e@ == unknown_key_message(
                    key_part(lowercase(s@)),
                ),
            },
    {
        KeyCombo::parse(s)
    }
}

/// Calls `std::slice::from_ref`: a slice holding just `c`.
#[verifier::external_body]
fn slice_of_one(c: &Command) -> (r: &[Command])
    ensures
        r@ == seq![*c],
{
    std::slice::from_ref(c)
}

/// One command, or several tried in turn until one applies.
#[derive(Debug, Clone)]
pub enum Commands {
    One(Command),
    Many(Vec<Command>),
}

impl Commands {
    pub open spec fn view(&self) -> Seq<Command> {
        match self {
            Commands::One(c) => seq![*c],
            Commands::Many(v) => v@,
        }
    }

    pub fn as_slice(&self) -> (r: &[Command])
        ensures
            r@ == self@,
    {
        match self {
            Commands::One(cmd) => slice_of_one(cmd),
            Commands::Many(cmds) => cmds.as_slice(),
        }
    }
}

impl From<Command> for Commands {
    fn from(cmd: Command) -> (r: Self) {
        Commands::One(cmd)
    }
}

impl vstd::std_specs::convert::FromSpecImpl<Command> for Commands {
    open spec fn obeys_from_spec() -> bool {
        true
    }

    open spec fn from_spec(cmd: Command) -> Self {
        Commands::One(cmd)
    }
}

impl From<Vec<Command>> for Commands {
    fn from(cmds: Vec<Command>) -> (r: Self) {
        Commands::Many(cmds)
    }
}

impl vstd::std_specs::convert::FromSpecImpl<Vec<Command>> for Commands {
    open spec fn obeys_from_spec() -> bool {
        true
    }

    open spec fn from_spec(cmds: Vec<Command>) -> Self {
        Commands::Many(cmds)
    }
}

impl DeepView for Commands {
    type V = Seq<Command>;

    open spec fn deep_view(&self) -> Seq<Command> {
        self@
    }
}

pub open spec fn combos_distinct(s: Seq<(KeyCombo, Commands)>) -> bool {
    forall|i: int, j: int| 0 <= i < s.len() && 0 <= j < s.len() && i != j ==> (#[trigger] s[i]).0 != (#[trigger] s[j]).0
}

/// Bindings from key combinations to commands, each combination held once.
pub struct Bindings {
    entries: Vec<(KeyCombo, Commands)>,
}

impl Bindings {
    #[verifier::type_invariant]
    pub closed spec fn wf(&self) -> bool {
        combos_distinct(self.entries@)
    }

    pub closed spec fn view(&self) -> Map<KeyCombo, Seq<Command>> {
        Map::new(
            |k: KeyCombo| exists|i: int| 0 <= i < self.entries@.len() && (#[trigger] self.entries@[i]).0 == k,
            |k: KeyCombo| self.entries@[choose|i: int| 0 <= i < self.entries@.len() && (#[trigger] self.entries@[i]).0 == k].1@,
        )
    }

    /// The combinations in the internal order; each occurs once.
    pub closed spec fn combos(&self) -> Seq<KeyCombo> {
        self.entries@.map_values(|e: (KeyCombo, Commands)| e.0)
    }

    proof fn lemma_entry(&self, i: int)
        requires
            combos_distinct(self.entries@),
            0 <= i < self.entries@.len(),
        ensures
            self@.contains_key(self.entries@[i].0),
            self@[self.entries@[i].0] == self.entries@[i].1@,
    {
        let k = self.entries@[i].0;
        let j = choose|j: int| 0 <= j < self.entries@.len() && (#[trigger] self.entries@[j]).0 == k;
        assert(j == i);
    }

    pub fn new() -> (r: Self)
        ensures
            r@ == Map::<KeyCombo, Seq<Command>>::empty(),
            r.combos() == Seq::<KeyCombo>::empty(),
    {
        let r = Bindings { entries: Vec::new() };
        assert(r@ =~= Map::<KeyCombo, Seq<Command>>::empty());
        assert(r.combos() =~= Seq::<KeyCombo>::empty());
        r
    }

    pub fn len(&self) -> (r: usize)
        ensures
            r == self.combos().len(),
    {
        self.entries.len()
    }

    pub fn is_empty(&self) -> (r: bool)
        ensures
            r == (self.combos().len() == 0),
            r == (self@ == Map::<KeyCombo, Seq<Command>>::empty()),
    {
        proof {
            use_type_invariant(self);
            if self.entries@.len() > 0 {
                self.lemma_entry(0);
                assert(self@.contains_key(self.entries@[0].0));
            } else {
                assert(self@ =~= Map::<KeyCombo, Seq<Command>>::empty());
            }
        }
        self.entries.len() == 0
    }

    /// The combination and commands at position `i` of the internal order.
    pub fn entry_at(&self, i: usize) -> (r: (&KeyCombo, &Commands))
        requires
            i < self.combos().len(),
        ensures
            *r.0 == self.combos()[i as int],
            self@.contains_key(*r.0),
            r.1@ == self@[*r.0],
    {
        proof {
            use_type_invariant(self);
            self.lemma_entry(i as int);
        }
        (&self.entries[i].0, &self.entries[i].1)
    }

    fn find(&self, k: &KeyCombo) -> (r: Option<usize>)
        ensures
            match r {
                Some(i) => i < self.entries@.len() && self.entries@[i as int].0 == *k,
                None => !self@.contains_key(*k),
            },
    {
        let n = self.entries.len();
        let mut i: usize = 0;
        while i < n
            invariant
                n == self.entries@.len(),
                i <= n,
                forall|j: int| 0 <= j < i ==> (#[trigger] self.entries@[j]).0 != *k,
            decreases n - i,
        {
            if self.entries[i].0 == *k {
                return Some(i);
            }
            i = i + 1;
        }
        None
    }

    pub fn get(&self, k: &KeyCombo) -> (r: Option<&Commands>)
        ensures
            r is Some == self@.contains_key(*k),
            r matches Some(c) ==> c@ == self@[*k],
    {
        proof {
            use_type_invariant(self);
        }
        match self.find(k) {
            Some(i) => {
                proof {
                    self.lemma_entry(i as int);
                }
                Some(&self.entries[i].1)
            },
            None => None,
        }
    }

    /// Binds `k` to `cmds`, replacing what `k` was bound to.
    pub fn insert(&mut self, k: KeyCombo, cmds: Commands)
        ensures
            final(self)@ == old(self)@.insert(k, cmds@),
    {
        proof {
            use_type_invariant(&*self);
        }
        let ghost old_self = *self;
        let ghost old_e = self.entries@;
        let ghost cv = cmds@;
        let found = self.find(&k);
        let mut entries: Vec<(KeyCombo, Commands)> = Vec::new();
        std::mem::swap(&mut entries, &mut self.entries);
        match found {
            Some(i) => {
                entries.set(i, (k, cmds));
            },
            None => {
                entries.push((k, cmds));
            },
        }
        assert(combos_distinct(entries@)) by {
            assert forall|a: int, b: int|
                0 <= a < entries@.len() && 0 <= b < entries@.len() && a != b implies (#[trigger] entries@[a]).0
                != (#[trigger] entries@[b]).0 by {
                if a < old_e.len() && b < old_e.len() {
                    if found is Some && (a == found->0 || b == found->0) {
                    } else {
                        assert(old_e[a].0 != old_e[b].0);
                    }
                }
            }
        }
        self.entries = entries;
        proof {
            let target = old_self@.insert(k, cv);
            assert forall|q: KeyCombo| self@.dom().contains(q) <==> target.dom().contains(q) by {
                if self@.dom().contains(q) {
                    let a = choose|a: int| 0 <= a < self.entries@.len() && (#[trigger] self.entries@[a]).0 == q;
                    if a < old_e.len() && q != k {
                        assert(old_e[a].0 == q);
                    }
                }
                if old_self@.dom().contains(q) {
                    let a = choose|a: int| 0 <= a < old_e.len() && (#[trigger] old_e[a]).0 == q;
                    if q != k {
                        assert(self.entries@[a].0 == q);
                    }
                }
                if q == k {
                    match found {
                        Some(i) => assert(self.entries@[i as int].0 == q),
                        None => assert(self.entries@[old_e.len() as int].0 == q),
                    }
                }
            }
            assert forall|q: KeyCombo| #[trigger] self@.dom().contains(q) implies self@[q] == target[q] by {
                let a = choose|a: int| 0 <= a < self.entries@.len() && (#[trigger] self.entries@[a]).0 == q;
                self.lemma_entry(a);
                if q != k {
                    assert(a < old_e.len());
                    assert(self.entries@[a] == old_e[a]);
                    old_self.lemma_entry(a);
                }
            }
            assert(self@ =~= target);
        }
    }

    /// Binds every combination of `overrides` as it binds it, keeping the
    /// other bindings.
    pub fn extend(&mut self, overrides: Bindings)
        ensures
            final(self)@ == old(self)@.union_prefer_right(overrides@),
    {
        let ghost start = self@;
        let n = overrides.len();
        let mut i: usize = 0;
        proof {
            use_type_invariant(&overrides);
        }
        while i < n
            invariant
                n == overrides.combos().len(),
                n == overrides.entries@.len(),
                combos_distinct(overrides.entries@),
                i <= n,
                self@ == start.union_prefer_right(
                    Map::new(
                        |k: KeyCombo| exists|j: int| 0 <= j < i && (#[trigger] overrides.entries@[j]).0 == k,
                        |k: KeyCombo| overrides@[k],
                    ),
                ),
            decreases n - i,
        {
            let (k, c) = overrides.entry_at(i);
            let k2 = *k;
            let c2 = c.clone_commands();
            self.insert(k2, c2);
            proof {
                let prev = Map::new(
                    |k: KeyCombo| exists|j: int| 0 <= j < i && (#[trigger] overrides.entries@[j]).0 == k,
                    |k: KeyCombo| overrides@[k],
                );
                let next = Map::new(
                    |k: KeyCombo| exists|j: int| 0 <= j < i + 1 && (#[trigger] overrides.entries@[j]).0 == k,
                    |k: KeyCombo| overrides@[k],
                );
                assert(overrides.entries@[i as int].0 == k2);
                assert forall|q: KeyCombo| next.dom().contains(q) <==> prev.insert(k2, overrides@[k2]).dom().contains(q) by {
                    if next.dom().contains(q) && q != k2 {
                        let j = choose|j: int| 0 <= j < i + 1 && (#[trigger] overrides.entries@[j]).0 == q;
                        assert(j < i);
                    }
                }
                assert(next =~= prev.insert(k2, overrides@[k2]));
                assert(self@ =~= start.union_prefer_right(next));
            }
            i = i + 1;
        }
        proof {
            let all = Map::new(
                |k: KeyCombo| exists|j: int| 0 <= j < n && (#[trigger] overrides.entries@[j]).0 == k,
                |k: KeyCombo| overrides@[k],
            );
            assert(all =~= overrides@);
        }
    }
}

impl Commands {
    pub fn clone_commands(&self) -> (r: Commands)
        ensures
            r@ == self@,
    {
        match self {
            Commands::One(c) => Commands::One(*c),
            Commands::Many(v) => {
                let mut w: Vec<Command> = Vec::new();
                let n = v.len();
                let mut i: usize = 0;
                while i < n
                    invariant
                        n == v@.len(),
                        i <= n,
                        w@ == v@.take(i as int),
                    decreases n - i,
                {
                    w.push(v[i]);
                    assert(w@ =~= v@.take(i + 1));
                    i = i + 1;
                }
                assert(v@.take(n as int) =~= v@);
                Commands::Many(w)
            },
        }
    }
}

/// The active key bindings.
pub struct Keymap {
    bindings: Bindings,
}

impl Keymap {
    pub closed spec fn view(&self) -> Map<KeyCombo, Seq<Command>> {
        self.bindings@
    }

    /// The bound combinations in the keymap's order.
    pub closed spec fn combos(&self) -> Seq<KeyCombo> {
        self.bindings.combos()
    }

    /// The bindings as a table.
    pub fn bindings(&self) -> (r: &Bindings)
        ensures
            r@ == self@,
            r.combos() == self.combos(),
    {
        &self.bindings
    }

    pub fn from_bindings(bindings: Bindings) -> (r: Self)
        ensures
            r@ == bindings@,
    {
        Keymap { bindings }
    }

    /// The commands bound to the combination of `key`, if any.
    pub fn lookup(&self, key: &KeyEvent) -> (r: Option<&[Command]>)
        ensures
            r is Some == self@.contains_key(combo_of(*key)),
            r matches Some(s) ==> s@ == self@[combo_of(*key)],
    {
        let combo = KeyCombo::from_key_event(key);
        match self.bindings.get(&combo) {
            Some(c) => Some(c.as_slice()),
            None => None,
        }
    }

    /// Lays `overrides` over the bindings: their combinations take their
    /// commands, all other bindings stay.
    pub fn merge(&mut self, overrides: Bindings)
        ensures
            final(self)@ == old(self)@.union_prefer_right(overrides@),
    {
        self.bindings.extend(overrides);
    }
}

pub open spec fn plain_char(c: char) -> KeyCombo {
    KeyCombo { code: KeyCode::Char(c), modifiers: NO_MODIFIERS }
}

pub open spec fn ctrl_char(c: char) -> KeyCombo {
    KeyCombo { code: KeyCode::Char(c), modifiers: CONTROL }
}

pub open spec fn plain_key(k: KeyCode) -> KeyCombo {
    KeyCombo { code: k, modifiers: NO_MODIFIERS }
}

/// The QWERTY preset: vi-style letters and the arrow keys.
pub open spec fn qwerty_map() -> Map<KeyCombo, Seq<Command>> {
    Map::<KeyCombo, Seq<Command>>::empty()
        .insert(plain_char('q'), seq![Command::Quit])
        .insert(ctrl_char('c'), seq![Command::Quit])
        .insert(plain_char('r'), seq![Command::Reload])
        .insert(plain_char('j'), seq![Command::SelectNext])
        .insert(plain_key(KeyCode::Down), seq![Command::SelectNext])
        .insert(plain_char('k'), seq![Command::SelectPrev])
        .insert(plain_key(KeyCode::Up), seq![Command::SelectPrev])
        .insert(plain_char('}'), seq![Command::NextSuite])
        .insert(plain_char('{'), seq![Command::PrevSuite])
        .insert(plain_char('l'), seq![Command::RightDwim])
        .insert(plain_key(KeyCode::Right), seq![Command::RightDwim])
        .insert(plain_char('h'), seq![Command::LeftDwim])
        .insert(plain_key(KeyCode::Left), seq![Command::LeftDwim])
        .insert(plain_key(KeyCode::Enter), seq![Command::ToggleDwim])
        .insert(plain_char(' '), seq![Command::ToggleDwim])
        .insert(plain_char('s'), seq![Command::ToggleSuite])
        .insert(plain_char('o'), seq![Command::OpenDetail])
        .insert(plain_char('d'), seq![Command::ToggleDetail])
        .insert(plain_key(KeyCode::Tab), seq![Command::TogglePane])
        .insert(plain_char('f'), seq![Command::ToggleFocus])
        .insert(ctrl_char('e'), seq![Command::ScrollDown])
        .insert(ctrl_char('y'), seq![Command::ScrollUp])
        .insert(ctrl_char('d'), seq![Command::PageDown])
        .insert(plain_key(KeyCode::PageDown), seq![Command::PageDown])
        .insert(ctrl_char('u'), seq![Command::PageUp])
        .insert(plain_key(KeyCode::PageUp), seq![Command::PageUp])
        .insert(plain_char('?'), seq![Command::ShowHelp])
}

/// The Colemak-DH preset: the QWERTY preset with the vi letters moved to
/// the same positions on a Colemak-DH layout (`m n e i`).
pub open spec fn colemak_dh_map() -> Map<KeyCombo, Seq<Command>> {
    Map::<KeyCombo, Seq<Command>>::empty()
        .insert(plain_char('q'), seq![Command::Quit])
        .insert(ctrl_char('c'), seq![Command::Quit])
        .insert(plain_char('r'), seq![Command::Reload])
        .insert(plain_char('n'), seq![Command::SelectNext])
        .insert(plain_key(KeyCode::Down), seq![Command::SelectNext])
        .insert(plain_char('e'), seq![Command::SelectPrev])
        .insert(plain_key(KeyCode::Up), seq![Command::SelectPrev])
        .insert(plain_char('}'), seq![Command::NextSuite])
        .insert(plain_char('{'), seq![Command::PrevSuite])
        .insert(plain_char('i'), seq![Command::RightDwim])
        .insert(plain_key(KeyCode::Right), seq![Command::RightDwim])
        .insert(plain_char('m'), seq![Command::LeftDwim])
        .insert(plain_key(KeyCode::Left), seq![Command::LeftDwim])
        .insert(plain_key(KeyCode::Enter), seq![Command::ToggleDwim])
        .insert(plain_char(' '), seq![Command::ToggleDwim])
        .insert(plain_char('s'), seq![Command::ToggleSuite])
        .insert(plain_char('o'), seq![Command::OpenDetail])
        .insert(plain_char('d'), seq![Command::ToggleDetail])
        .insert(plain_key(KeyCode::Tab), seq![Command::TogglePane])
        .insert(plain_char('f'), seq![Command::ToggleFocus])
        .insert(ctrl_char('e'), seq![Command::ScrollDown])
        .insert(ctrl_char('y'), seq![Command::ScrollUp])
        .insert(ctrl_char('d'), seq![Command::PageDown])
        .insert(plain_key(KeyCode::PageDown), seq![Command::PageDown])
        .insert(ctrl_char('u'), seq![Command::PageUp])
        .insert(plain_key(KeyCode::PageUp), seq![Command::PageUp])
        .insert(plain_char('?'), seq![Command::ShowHelp])
}

fn bind(b: &mut Bindings, code: KeyCode, modifiers: u8, cmd: Command)
    ensures
        final(b)@ == old(b)@.insert(KeyCombo { code, modifiers }, seq![cmd]),
{
    b.insert(KeyCombo { code, modifiers }, Commands::One(cmd));
}

/// A keymap preset.
#[derive(Debug, Clone, Copy, PartialEq, Eq, Structural)]
pub enum PresetName {
    Qwerty,
    ColemakDh,
}

impl Default for PresetName {
    fn default() -> (r: Self)
        ensures
            r == PresetName::Qwerty,
    {
        PresetName::Qwerty
    }
}

pub open spec fn preset_map(p: PresetName) -> Map<KeyCombo, Seq<Command>> {
    match p {
        PresetName::Qwerty => qwerty_map(),
        PresetName::ColemakDh => colemak_dh_map(),
    }
}

impl Keymap {
    pub fn qwerty() -> (r: Self)
        ensures
            r@ == qwerty_map(),
    {
        let mut b = Bindings::new();
        bind(&mut b, KeyCode::Char('q'), NO_MODIFIERS, Command::Quit);
        bind(&mut b, KeyCode::Char('c'), CONTROL, Command::Quit);
        bind(&mut b, KeyCode::Char('r'), NO_MODIFIERS, Command::Reload);
        bind(&mut b, KeyCode::Char('j'), NO_MODIFIERS, Command::SelectNext);
        bind(&mut b, KeyCode::Down, NO_MODIFIERS, Command::SelectNext);
        bind(&mut b, KeyCode::Char('k'), NO_MODIFIERS, Command::SelectPrev);
        bind(&mut b, KeyCode::Up, NO_MODIFIERS, Command::SelectPrev);
        bind(&mut b, KeyCode::Char('}'), NO_MODIFIERS, Command::NextSuite);
        bind(&mut b, KeyCode::Char('{'), NO_MODIFIERS, Command::PrevSuite);
        bind(&mut b, KeyCode::Char('l'), NO_MODIFIERS, Command::RightDwim);
        bind(&mut b, KeyCode::Right, NO_MODIFIERS, Command::RightDwim);
        bind(&mut b, KeyCode::Char('h'), NO_MODIFIERS, Command::LeftDwim);
        bind(&mut b, KeyCode::Left, NO_MODIFIERS, Command::LeftDwim);
        bind(&mut b, KeyCode::Enter, NO_MODIFIERS, Command::ToggleDwim);
        bind(&mut b, KeyCode::Char(' '), NO_MODIFIERS, Command::ToggleDwim);
        bind(&mut b, KeyCode::Char('s'), NO_MODIFIERS, Command::ToggleSuite);
        bind(&mut b, KeyCode::Char('o'), NO_MODIFIERS, Command::OpenDetail);
        bind(&mut b, KeyCode::Char('d'), NO_MODIFIERS, Command::ToggleDetail);
        bind(&mut b, KeyCode::Tab, NO_MODIFIERS, Command::TogglePane);
        bind(&mut b, KeyCode::Char('f'), NO_MODIFIERS, Command::ToggleFocus);
        bind(&mut b, KeyCode::Char('e'), CONTROL, Command::ScrollDown);
        bind(&mut b, KeyCode::Char('y'), CONTROL, Command::ScrollUp);
        bind(&mut b, KeyCode::Char('d'), CONTROL, Command::PageDown);
        bind(&mut b, KeyCode::PageDown, NO_MODIFIERS, Command::PageDown);
        bind(&mut b, KeyCode::Char('u'), CONTROL, Command::PageUp);
        bind(&mut b, KeyCode::PageUp, NO_MODIFIERS, Command::PageUp);
        bind(&mut b, KeyCode::Char('?'), NO_MODIFIERS, Command::ShowHelp);
        Keymap { bindings: b }
    }

    pub fn colemak_dh() -> (r: Self)
        ensures
            r@ == colemak_dh_map(),
    {
        let mut b = Bindings::new();
        bind(&mut b, KeyCode::Char('q'), NO_MODIFIERS, Command::Quit);
        bind(&mut b, KeyCode::Char('c'), CONTROL, Command::Quit);
        bind(&mut b, KeyCode::Char('r'), NO_MODIFIERS, Command::Reload);
        bind(&mut b, KeyCode::Char('n'), NO_MODIFIERS, Command::SelectNext);
        bind(&mut b, KeyCode::Down, NO_MODIFIERS, Command::SelectNext);
        bind(&mut b, KeyCode::Char('e'), NO_MODIFIERS, Command::SelectPrev);
        bind(&mut b, KeyCode::Up, NO_MODIFIERS, Command::SelectPrev);
        bind(&mut b, KeyCode::Char('}'), NO_MODIFIERS, Command::NextSuite);
        bind(&mut b, KeyCode::Char('{'), NO_MODIFIERS, Command::PrevSuite);
        bind(&mut b, KeyCode::Char('i'), NO_MODIFIERS, Command::RightDwim);
        bind(&mut b, KeyCode::Right, NO_MODIFIERS, Command::RightDwim);
        bind(&mut b, KeyCode::Char('m'), NO_MODIFIERS, Command::LeftDwim);
        bind(&mut b, KeyCode::Left, NO_MODIFIERS, Command::LeftDwim);
        bind(&mut b, KeyCode::Enter, NO_MODIFIERS, Command::ToggleDwim);
        bind(&mut b, KeyCode::Char(' '), NO_MODIFIERS, Command::ToggleDwim);
        bind(&mut b, KeyCode::Char('s'), NO_MODIFIERS, Command::ToggleSuite);
        bind(&mut b, KeyCode::Char('o'), NO_MODIFIERS, Command::OpenDetail);
        bind(&mut b, KeyCode::Char('d'), NO_MODIFIERS, Command::ToggleDetail);
        bind(&mut b, KeyCode::Tab, NO_MODIFIERS, Command::TogglePane);
        bind(&mut b, KeyCode::Char('f'), NO_MODIFIERS, Command::ToggleFocus);
        bind(&mut b, KeyCode::Char('e'), CONTROL, Command::ScrollDown);
        bind(&mut b, KeyCode::Char('y'), CONTROL, Command::ScrollUp);
        bind(&mut b, KeyCode::Char('d'), CONTROL, Command::PageDown);
        bind(&mut b, KeyCode::PageDown, NO_MODIFIERS, Command::PageDown);
        bind(&mut b, KeyCode::Char('u'), CONTROL, Command::PageUp);
        bind(&mut b, KeyCode::PageUp, NO_MODIFIERS, Command::PageUp);
        bind(&mut b, KeyCode::Char('?'), NO_MODIFIERS, Command::ShowHelp);
        Keymap { bindings: b }
    }

    pub fn preset(p: PresetName) -> (r: Self)
        ensures
            r@ == preset_map(p),
    {
        match p {
            PresetName::Qwerty => Keymap::qwerty(),
            PresetName::ColemakDh => Keymap::colemak_dh(),
        }
    }
}

} // verus!
