//! The decisions of the interactive token browser: a state of the screen and
//! an input event give the next state and what to draw or do. Reading keys,
//! drawing and the clipboard belong to the caller.
use vstd::prelude::*;

verus! {

/// Tokens listed on one page.
pub const PAGE_SIZE: usize = 5;

/// An input event.
#[derive(Clone, Copy, Debug, PartialEq, Eq, Structural)]
pub enum Event {
    /// The one-second tick.
    Timer,
    Esc,
    CtrlC,
    Delete,
    CtrlD,
    Left,
    Right,
    Enter,
    Backspace,
    Char(char),
    /// Any other key.
    Other,
}

/// What the screen shows.
#[derive(Clone, Copy, Debug, PartialEq, Eq, Structural)]
pub enum Mode {
    /// A page of the token list.
    List { page: usize },
    /// The code of the token at an index of the list.
    Token { index: usize },
}

/// What the caller does after an event.
#[derive(Clone, Copy, Debug, PartialEq, Eq, Structural)]
pub enum Action {
    Nothing,
    /// Clear the screen and leave.
    Exit,
    /// Draw a page of the list with the typed input.
    ShowList { page: usize },
    /// Draw the current code of the token at an index.
    ShowToken { index: usize },
    /// Put the current code of the token at an index on the clipboard.
    Copy { index: usize },
}

/// The number of list pages for `n` tokens.
pub open spec fn pages(n: nat) -> nat {
    (n + PAGE_SIZE - 1) as nat / (PAGE_SIZE as nat)
}

/// The value of a run of decimal digits.
pub open spec fn digits_value(s: Seq<char>) -> nat
    decreases s.len(),
{
    if s.len() == 0 {
        0
    } else {
        (digits_value(s.drop_last()) * 10 + (s.last() as u32 - '0' as u32)) as nat
    }
}

/// Every character is a decimal digit.
pub open spec fn all_digits(s: Seq<char>) -> bool {
    forall|i: int| 0 <= i < s.len() ==> '0' <= #[trigger] s[i] <= '9'
}

/// The typed input read as an index, as `usize::from_str` reads it: an
/// optional `+`, then at least one digit, and a value that fits.
pub open spec fn typed_index(s: Seq<char>) -> Option<usize> {
    let d = if s.len() > 0 && s[0] == '+' { s.drop_first() } else { s };
    if d.len() > 0 && all_digits(d) && digits_value(d) <= usize::MAX {
        Some(digits_value(d) as usize)
    } else {
        None
    }
}

/// The first token named exactly as typed.
pub open spec fn named_index(names: Seq<Seq<char>>, s: Seq<char>) -> Option<int> {
    if exists|i: int| 0 <= i < names.len() && names[i] == s {
        Some(choose|i: int| 0 <= i < names.len() && names[i] == s && forall|j: int| 0 <= j < i ==> names[j] != s)
    } else {
        None
    }
}

/// The next mode, input and action after `e`, for a list of tokens named `names`.
pub open spec fn next(mode: Mode, input: Seq<char>, e: Event, names: Seq<Seq<char>>) -> (Mode, Seq<char>, Action) {
    let n = names.len();
    match mode {
        Mode::List { page } => match e {
            Event::Esc | Event::CtrlC => (mode, input, Action::Exit),
            Event::Delete | Event::CtrlD => (mode, Seq::empty(), Action::ShowList { page }),
            Event::Left => if page != 0 {
                (Mode::List { page: (page - 1) as usize }, input, Action::ShowList { page: (page - 1) as usize })
            } else {
                (mode, input, Action::Nothing)
            },
            Event::Right => if page + 1 < pages(n) {
                (Mode::List { page: (page + 1) as usize }, input, Action::ShowList { page: (page + 1) as usize })
            } else {
                (mode, input, Action::Nothing)
            },
            Event::Enter => if input.len() == 0 {
                (mode, input, Action::Nothing)
            } else if typed_index(input) is Some && typed_index(input)->Some_0 < n {
                let i = typed_index(input)->Some_0;
                (Mode::Token { index: i }, Seq::empty(), Action::ShowToken { index: i })
            } else if named_index(names, input) is Some {
                let i = named_index(names, input)->Some_0 as usize;
                (Mode::Token { index: i }, Seq::empty(), Action::ShowToken { index: i })
            } else {
                (mode, input, Action::ShowList { page })
            },
            Event::Backspace => (mode, if input.len() > 0 { input.drop_last() } else { input }, Action::ShowList { page }),
            Event::Char(c) => (mode, input.push(c), Action::ShowList { page }),
            _ => (mode, input, Action::Nothing),
        },
        Mode::Token { index } => match e {
            Event::Timer => (mode, input, Action::ShowToken { index }),
            Event::Esc | Event::CtrlC => (mode, input, Action::Exit),
            Event::Char(c) => if c == 'c' {
                (mode, input, Action::Copy { index })
            } else if c == 'q' {
                (Mode::List { page: 0 }, input, Action::ShowList { page: 0 })
            } else {
                (mode, input, Action::Nothing)
            },
            _ => (mode, input, Action::Nothing),
        },
    }
}

/// The number of list pages for `n` tokens.
pub fn page_count(n: usize) -> (r: usize)
    ensures
        r == pages(n as nat),
{
    n / PAGE_SIZE + if n % PAGE_SIZE == 0 { 0 } else { 1 }
}

/// The indices of the tokens on a page: from `start` up to `end`.
pub fn page_bounds(page: usize, n: usize) -> (r: (usize, usize))
    ensures
        r.0 <= r.1 <= n,
        r.0 == if page * PAGE_SIZE <= n { page * PAGE_SIZE } else { n as int },
        r.1 == if r.0 + PAGE_SIZE <= n { r.0 + PAGE_SIZE } else { n as int },
{
    let start = if page <= n / PAGE_SIZE { page * PAGE_SIZE } else { n };
    let start = if start <= n { start } else { n };
    let end = if n - start >= PAGE_SIZE { start + PAGE_SIZE } else { n };
    (start, end)
}

fn parse_index(s: &Vec<char>) -> (r: Option<usize>)
    ensures
        r == typed_index(s@),
{
    let mut i: usize = 0;
    if s.len() > 0 && s[0] == '+' {
        i = 1;
    }
    let ghost d = if s@.len() > 0 && s@[0] == '+' { s@.drop_first() } else { s@ };
    assert(d =~= s@.skip(i as int));
    if i >= s.len() {
        return None;
    }
    let mut acc: usize = 0;
    let start = i;
    assert(s@.subrange(start as int, start as int) =~= Seq::<char>::empty());
    while i < s.len()
        invariant
            start <= i <= s@.len(),
            d == s@.skip(start as int),
            d == (if s@.len() > 0 && s@[0] == '+' { s@.drop_first() } else { s@ }),
            all_digits(s@.subrange(start as int, i as int)),
            acc as nat == digits_value(s@.subrange(start as int, i as int)),
        decreases s@.len() - i,
    {
        let c = s[i];
        if !('0' <= c && c <= '9') {
            assert(d[i - start] == c);
            assert(!all_digits(d));
            return None;
        }
        let digit = (c as u32 - '0' as u32) as usize;
        let ghost next = s@.subrange(start as int, i + 1);
        assert(next.drop_last() =~= s@.subrange(start as int, i as int));
        assert(all_digits(next));
        let scaled = match acc.checked_mul(10) {
            Some(v) => v,
            None => {
                proof {
                    if all_digits(d) {
                        assert(s@.subrange(start as int, s@.len() as int) =~= d);
                        lemma_digits_grow(s@, start as int, i as int + 1, s@.len() as int);
                    }
                }
                return None;
            },
        };
        acc = match scaled.checked_add(digit) {
            Some(v) => v,
            None => {
                proof {
                    if all_digits(d) {
                        assert(s@.subrange(start as int, s@.len() as int) =~= d);
                        lemma_digits_grow(s@, start as int, i as int + 1, s@.len() as int);
                    }
                }
                return None;
            },
        };
        i += 1;
    }
    assert(s@.subrange(start as int, i as int) =~= d);
    Some(acc)
}

proof fn lemma_digits_grow(s: Seq<char>, start: int, mid: int, end: int)
    requires
        0 <= start < mid <= end <= s.len(),
        all_digits(s.subrange(start, end)),
    ensures
        digits_value(s.subrange(start, mid)) <= digits_value(s.subrange(start, end)),
    decreases end - mid,
{
    if mid < end {
        let t = s.subrange(start, end);
        assert(t.drop_last() =~= s.subrange(start, end - 1));
        assert(all_digits(s.subrange(start, end - 1))) by {
            assert forall|i: int| 0 <= i < end - 1 - start implies '0' <= #[trigger] s.subrange(start, end - 1)[i] <= '9' by {
                assert(s.subrange(start, end - 1)[i] == t[i]);
            }
        }
        lemma_digits_grow(s, start, mid, end - 1);
        assert('0' <= t.last() <= '9');
    }
}

fn same_chars(a: &Vec<char>, b: &Vec<char>) -> (r: bool)
    ensures
        r == (a@ == b@),
{
    if a.len() != b.len() {
        return false;
    }
    let mut i: usize = 0;
    while i < a.len()
        invariant
            i <= a@.len(),
            a@.len() == b@.len(),
            forall|k: int| 0 <= k < i ==> a@[k] == b@[k],
        decreases a@.len() - i,
    {
        if a[i] != b[i] {
            return false;
        }
        i += 1;
    }
    assert(a@ =~= b@);
    true
}

fn find_name(names: &Vec<Vec<char>>, s: &Vec<char>) -> (r: Option<usize>)
    ensures
        match named_index(names@.map_values(|v: Vec<char>| v@), s@) {
            Some(i) => r == Some(i as usize),
            None => r is None,
        },
{
    let ghost ns = names@.map_values(|v: Vec<char>| v@);
    let mut i: usize = 0;
    while i < names.len()
        invariant
            i <= names@.len(),
            ns == names@.map_values(|v: Vec<char>| v@),
            forall|j: int| 0 <= j < i ==> ns[j] != s@,
        decreases names@.len() - i,
    {
        if same_chars(&names[i], s) {
            assert(ns[i as int] == s@);
            let ghost c = choose|k: int| 0 <= k < ns.len() && ns[k] == s@ && forall|j: int| 0 <= j < k ==> ns[j] != s@;
            assert(c == i) by {
                if c < i {
                    assert(ns[c] != s@);
                } else if c > i {
                    assert(ns[i as int] != s@);
                }
            }
            return Some(i);
        }
        i += 1;
    }
    None
}

/// The browser: what is shown, and the text typed so far.
pub struct Dashboard {
    pub mode: Mode,
    pub input: Vec<char>,
}

impl Dashboard {
    /// The first page of the list, nothing typed.
    pub fn new() -> (r: Dashboard)
        ensures
            r.mode == (Mode::List { page: 0 }),
            r.input@ == Seq::<char>::empty(),
    {
        Dashboard { mode: Mode::List { page: 0 }, input: Vec::new() }
    }

    /// Takes one event for a list of tokens named `names` (in list order),
    /// moves to the next state and says what to do.
    pub fn step(&mut self, e: Event, names: &Vec<Vec<char>>) -> (r: Action)
        ensures
            (final(self).mode, final(self).input@, r) == next(
                old(self).mode,
                old(self).input@,
                e,
                names@.map_values(|v: Vec<char>| v@),
            ),
    {
        let n = names.len();
        match self.mode {
            Mode::List { page } => match e {
                Event::Esc | Event::CtrlC => Action::Exit,
                Event::Delete | Event::CtrlD => {
                    self.input = Vec::new();
                    Action::ShowList { page }
                },
                Event::Left => if page != 0 {
                    self.mode = Mode::List { page: page - 1 };
                    Action::ShowList { page: page - 1 }
                } else {
                    Action::Nothing
                },
                Event::Right => if page < usize::MAX && page + 1 < page_count(n) {
                    self.mode = Mode::List { page: page + 1 };
                    Action::ShowList { page: page + 1 }
                } else {
                    Action::Nothing
                },
                Event::Enter => {
                    if self.input.len() == 0 {
                        return Action::Nothing;
                    }
                    match parse_index(&self.input) {
                        Some(i) => if i < n {
                            self.mode = Mode::Token { index: i };
                            self.input = Vec::new();
                            return Action::ShowToken { index: i };
                        },
                        None => {},
                    }
                    match find_name(names, &self.input) {
                        Some(i) => {
                            self.mode = Mode::Token { index: i };
                            self.input = Vec::new();
                            Action::ShowToken { index: i }
                        },
                        None => Action::ShowList { page },
                    }
                },
                Event::Backspace => {
                    if self.input.len() > 0 {
                        self.input.pop();
                    }
                    Action::ShowList { page }
                },
                Event::Char(c) => {
                    self.input.push(c);
                    Action::ShowList { page }
                },
                _ => Action::Nothing,
            },
            Mode::Token { index } => match e {
                Event::Timer => Action::ShowToken { index },
                Event::Esc | Event::CtrlC => Action::Exit,
                Event::Char(c) => if c == 'c' {
                    Action::Copy { index }
                } else if c == 'q' {
                    self.mode = Mode::List { page: 0 };
                    Action::ShowList { page: 0 }
                } else {
                    Action::Nothing
                },
                _ => Action::Nothing,
            },
        }
    }
}

} // verus!
