use vstd::prelude::*;

verus! {

/// One line of operator input, as the producer reads it.
#[derive(Clone, Debug, PartialEq, Eq)]
pub enum Command {
    /// `exit`: stop reading input and shut the producer down.
    Exit,
    /// `push <message>`: publish the message.
    Push { message: String },
    /// `push` with nothing after it.
    MissingMessage,
    /// Anything else, blank lines included.
    Ignored,
}

/// What a command is, with its text as characters.
pub enum CommandView {
    Exit,
    Push { message: Seq<char> },
    MissingMessage,
    Ignored,
}

impl View for Command {
    type V = CommandView;

    open spec fn view(&self) -> CommandView {
        match self {
            Command::Exit => CommandView::Exit,
            Command::Push { message } => CommandView::Push { message: message@ },
            Command::MissingMessage => CommandView::MissingMessage,
            Command::Ignored => CommandView::Ignored,
        }
    }
}

/// Unicode's White_Space characters, those that `str::trim` removes.
pub open spec fn is_white_space(c: char) -> bool {
    ||| '\u{9}' <= c && c <= '\u{d}'
    ||| c == ' '
    ||| c == '\u{85}'
    ||| c == '\u{a0}'
    ||| c == '\u{1680}'
    ||| '\u{2000}' <= c && c <= '\u{200a}'
    ||| c == '\u{2028}'
    ||| c == '\u{2029}'
    ||| c == '\u{202f}'
    ||| c == '\u{205f}'
    ||| c == '\u{3000}'
}

/// The first position at or after `i` that holds no white space (the length if none).
pub open spec fn skip_white_space(s: Seq<char>, i: int) -> int
    decreases s.len() - i,
{
    if i < 0 || i >= s.len() {
        s.len() as int
    } else if is_white_space(s[i]) {
        skip_white_space(s, i + 1)
    } else {
        i
    }
}

/// The end of `s.subrange(0, j)` once its trailing white space is dropped.
pub open spec fn drop_white_space_back(s: Seq<char>, j: int) -> int
    decreases j,
{
    if j <= 0 || j > s.len() {
        0
    } else if is_white_space(s[j - 1]) {
        drop_white_space_back(s, j - 1)
    } else {
        j
    }
}

/// `s` without its leading and trailing white space.
pub open spec fn trimmed(s: Seq<char>) -> Seq<char> {
    let a = skip_white_space(s, 0);
    let b = drop_white_space_back(s, s.len() as int);
    if a < b {
        s.subrange(a, b)
    } else {
        Seq::empty()
    }
}

/// The end of the space-separated token that starts at `i`.
pub open spec fn token_end(s: Seq<char>, i: int) -> int
    decreases s.len() - i,
{
    if i < 0 || i >= s.len() {
        s.len() as int
    } else if s[i] == ' ' {
        i
    } else {
        token_end(s, i + 1)
    }
}

/// What a line of input means. The line is trimmed and split at single
/// spaces; the first piece is the verb, and the second, if any, the message.
pub open spec fn command_of(line: Seq<char>) -> CommandView {
    let t = trimmed(line);
    let e = token_end(t, 0);
    let verb = t.subrange(0, e);
    if verb == seq!['e', 'x', 'i', 't'] {
        CommandView::Exit
    } else if verb == seq!['p', 'u', 's', 'h'] {
        if e < t.len() {
            CommandView::Push { message: t.subrange(e + 1, token_end(t, e + 1)) }
        } else {
            CommandView::MissingMessage
        }
    } else {
        CommandView::Ignored
    }
}

proof fn lemma_token_end_from(w: Seq<char>, i: int)
    requires
        0 <= i <= w.len(),
        forall|k: int| 0 <= k < w.len() ==> w[k] != ' ',
    ensures
        token_end(w, w.len() - i) == w.len(),
    decreases i,
{
    if i > 0 {
        lemma_token_end_from(w, i - 1);
    }
}

/// A text without spaces is a single token.
pub proof fn lemma_single_token(w: Seq<char>)
    requires
        forall|i: int| 0 <= i < w.len() ==> w[i] != ' ',
    ensures
        token_end(w, 0) == w.len(),
{
    lemma_token_end_from(w, w.len() as int);
}

fn white_space(c: char) -> (r: bool)
    ensures
        r == is_white_space(c),
{
    ('\u{9}' <= c && c <= '\u{d}') || c == ' ' || c == '\u{85}' || c == '\u{a0}' || c
        == '\u{1680}' || ('\u{2000}' <= c && c <= '\u{200a}') || c == '\u{2028}' || c
        == '\u{2029}' || c == '\u{202f}' || c == '\u{205f}' || c == '\u{3000}'
}

/// Whether two texts hold the same characters.
pub fn same_text(a: &str, b: &str) -> (r: bool)
    ensures
        r == (a@ == b@),
{
    let n = a.unicode_len();
    if n != b.unicode_len() {
        return false;
    }
    let mut i: usize = 0;
    while i < n
        invariant
            n == a@.len() == b@.len(),
            i <= n,
            forall|k: int| 0 <= k < i ==> a@[k] == b@[k],
        decreases n - i,
    {
        if a.get_char(i) != b.get_char(i) {
            return false;
        }
        i = i + 1;
    }
    assert(a@ =~= b@);
    true
}

/// The line without its leading and trailing white space.
pub fn trim_line(line: &str) -> (r: &str)
    ensures
        r@ == trimmed(line@),
{
    let n = line.unicode_len();
    let mut a: usize = 0;
    while a < n && white_space(line.get_char(a))
        invariant
            n == line@.len(),
            a <= n,
            skip_white_space(line@, 0) == skip_white_space(line@, a as int),
        decreases n - a,
    {
        a = a + 1;
    }
    let mut b: usize = n;
    while b > 0 && white_space(line.get_char(b - 1))
        invariant
            n == line@.len(),
            b <= n,
            drop_white_space_back(line@, n as int) == drop_white_space_back(line@, b as int),
        decreases b,
    {
        b = b - 1;
    }
    if a < b {
        line.substring_char(a, b)
    } else {
        let e = line.substring_char(0, 0);
        assert(e@ =~= Seq::<char>::empty());
        e
    }
}

/// The end of the space-separated token of `s` that starts at `i`.
fn find_token_end(s: &str, i: usize) -> (r: usize)
    requires
        i <= s@.len(),
    ensures
        r == token_end(s@, i as int),
        i <= r <= s@.len(),
{
    let n = s.unicode_len();
    let mut j: usize = i;
    while j < n && s.get_char(j) != ' '
        invariant
            n == s@.len(),
            i <= j <= n,
            token_end(s@, i as int) == token_end(s@, j as int),
        decreases n - j,
    {
        j = j + 1;
    }
    j
}

/// Reads one line of operator input.
pub fn parse_command(line: &str) -> (r: Command)
    ensures
        r@ == command_of(line@),
{
    let t = trim_line(line);
    let n = t.unicode_len();
    let e = find_token_end(t, 0);
    let verb = t.substring_char(0, e);
    proof {
        reveal_strlit("exit");
        reveal_strlit("push");
        assert("exit"@ =~= seq!['e', 'x', 'i', 't']);
        assert("push"@ =~= seq!['p', 'u', 's', 'h']);
    }
    if same_text(verb, "exit") {
        Command::Exit
    } else if same_text(verb, "push") {
        if e < n {
            let e2 = find_token_end(t, e + 1);
            let message = String::from_str(t.substring_char(e + 1, e2));
            Command::Push { message }
        } else {
            Command::MissingMessage
        }
    } else {
        Command::Ignored
    }
}

} // verus!
