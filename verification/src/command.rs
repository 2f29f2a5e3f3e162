//! Special input directives handled by the core before anything is
//! forwarded to the shell, the framing of a submitted command, and the
//! completion candidates offered for plain words.

use vstd::prelude::*;

use crate::text::{is_prefix_of, str_eq_chars, str_has_prefix};

verus! {

/// What an accepted line of input asks the core to do.
#[derive(Debug)]
pub enum Directive {
    /// Render the tracked history in place of a shell round trip.
    ShowHistory,
    /// Persist the history and end the session.
    Exit,
    /// A diagnostic directive answered by the core without touching the
    /// shell; holds the text after the prefix.
    Phantom(String),
    /// Anything else: forward the line to the shell.
    Shell,
}

/// Classifies an accepted command line: `history` and `exit` are
/// handled by the core, a `phantom:` prefix is a diagnostic directive
/// carrying the rest of the line, and anything else goes to the shell.
pub fn classify_command(cmd: &str) -> (d: Directive)
    ensures
        cmd@ == "history"@ ==> d is ShowHistory,
        cmd@ != "history"@ && cmd@ == "exit"@ ==> d is Exit,
        cmd@ != "history"@ && cmd@ != "exit"@ && is_prefix_of("phantom:"@, cmd@) ==> (d matches
            Directive::Phantom(w) && w@ == cmd@.skip("phantom:"@.len() as int)),
        cmd@ != "history"@ && cmd@ != "exit"@ && !is_prefix_of("phantom:"@, cmd@) ==> d is Shell,
{
    if str_eq_chars(cmd, "history") {
        Directive::ShowHistory
    } else if str_eq_chars(cmd, "exit") {
        Directive::Exit
    } else if str_has_prefix(cmd, "phantom:") {
        let p = "phantom:".unicode_len();
        let n = cmd.unicode_len();
        let rest = cmd.substring_char(p, n);
        proof {
            assert(rest@ =~= cmd@.skip("phantom:"@.len() as int));
        }
        Directive::Phantom(rest.to_owned())
    } else {
        Directive::Shell
    }
}

/// Characters ignored at the ends of a directive word.
pub open spec fn is_blank(c: char) -> bool {
    c == ' ' || c == '\t' || c == '\r' || c == '\n'
}

/// The sequence with leading blanks removed.
pub open spec fn trim_front_spec(s: Seq<char>) -> Seq<char>
    decreases s.len(),
{
    if s.len() > 0 && is_blank(s[0]) {
        trim_front_spec(s.drop_first())
    } else {
        s
    }
}

/// The sequence with trailing blanks removed.
pub open spec fn trim_back_spec(s: Seq<char>) -> Seq<char>
    decreases s.len(),
{
    if s.len() > 0 && is_blank(s.last()) {
        trim_back_spec(s.drop_last())
    } else {
        s
    }
}

/// The sequence with blanks removed at both ends.
pub open spec fn trim_spec(s: Seq<char>) -> Seq<char> {
    trim_back_spec(trim_front_spec(s))
}

/// Whether the character is ignored at the ends of a directive word.
fn is_blank_char(c: char) -> (r: bool)
    ensures
        r == is_blank(c),
{
    c == ' ' || c == '\t' || c == '\r' || c == '\n'
}

/// The string with blanks removed at both ends.
pub fn trim_blanks<'a>(s: &'a str) -> (r: &'a str)
    ensures
        r@ == trim_spec(s@),
{
    let n = s.unicode_len();
    let mut a: usize = 0;
    proof {
        assert(s@.skip(0) =~= s@);
    }
    while a < n && is_blank_char(s.get_char(a))
        invariant
            a <= n,
            n == s@.len(),
            trim_front_spec(s@) == trim_front_spec(s@.skip(a as int)),
        decreases n - a,
    {
        proof {
            assert(s@.skip(a as int).drop_first() =~= s@.skip(a as int + 1));
            assert(s@.skip(a as int)[0] == s@[a as int]);
        }
        a += 1;
    }
    proof {
        assert(trim_front_spec(s@.skip(a as int)) == s@.skip(a as int));
    }
    let mut b: usize = n;
    while b > a && is_blank_char(s.get_char(b - 1))
        invariant
            a <= b <= n,
            n == s@.len(),
            trim_back_spec(s@.skip(a as int)) == trim_back_spec(s@.subrange(a as int, b as int)),
        decreases b,
    {
        proof {
            assert(s@.subrange(a as int, b as int).drop_last() =~= s@.subrange(
                a as int,
                b as int - 1,
            ));
            assert(s@.subrange(a as int, b as int).last() == s@[b - 1]);
        }
        b -= 1;
    }
    proof {
        assert(trim_back_spec(s@.subrange(a as int, b as int)) == s@.subrange(a as int, b as int));
    }
    s.substring_char(a, b)
}

/// The response to a diagnostic directive: the word (blanks at its ends
/// ignored) selects a fixed greeting or the current shell path, and
/// anything else is answered as unknown, echoing the word as given.
pub fn phantom_response(word: &str, shell_path: &str) -> (r: String)
    ensures
        trim_spec(word@) == "hello"@ ==> r@ == "Hello from PhantomTTY!"@,
        trim_spec(word@) != "hello"@ && trim_spec(word@) == "shell"@ ==> r@ == "Current shell: "@
            + shell_path@,
        trim_spec(word@) != "hello"@ && trim_spec(word@) != "shell"@ ==> r@
            == "Unknown PhantomTTY command: "@ + word@,
{
    let w = trim_blanks(word);
    if str_eq_chars(w, "hello") {
        String::from_str("Hello from PhantomTTY!")
    } else if str_eq_chars(w, "shell") {
        let mut r = String::from_str("Current shell: ");
        r.append(shell_path);
        r
    } else {
        let mut r = String::from_str("Unknown PhantomTTY command: ");
        r.append(word);
        r
    }
}

/// The text written to the shell for an accepted command: the line with
/// a terminating newline.
pub fn encode_submission(cmd: &str) -> (r: String)
    ensures
        r@ == cmd@ + seq!['\n'],
{
    let mut r = cmd.to_owned();
    r.append("\n");
    proof {
        reveal_strlit("\n");
        assert(r@ =~= cmd@ + seq!['\n']);
    }
    r
}

/// The built-in commands offered for completion of a plain word, those
/// that start with the prefix, in this fixed order.
pub open spec fn completions_spec(p: Seq<char>) -> Seq<Seq<char>> {
    (if is_prefix_of(p, "cd"@) {
        seq!["cd"@]
    } else {
        Seq::empty()
    }) + (if is_prefix_of(p, "ls"@) {
        seq!["ls"@]
    } else {
        Seq::empty()
    }) + (if is_prefix_of(p, "echo"@) {
        seq!["echo"@]
    } else {
        Seq::empty()
    }) + (if is_prefix_of(p, "cat"@) {
        seq!["cat"@]
    } else {
        Seq::empty()
    }) + (if is_prefix_of(p, "grep"@) {
        seq!["grep"@]
    } else {
        Seq::empty()
    }) + (if is_prefix_of(p, "history"@) {
        seq!["history"@]
    } else {
        Seq::empty()
    }) + (if is_prefix_of(p, "exit"@) {
        seq!["exit"@]
    } else {
        Seq::empty()
    })
}

/// The built-in commands that start with the given prefix, offered in
/// place of filename completion for plain words.
#[verifier::rlimit(60)]
pub fn builtin_completions(prefix: &str) -> (r: Vec<String>)
    ensures
        r@.map_values(|s: String| s@) == completions_spec(prefix@),
{
    let mut r: Vec<String> = Vec::new();
    if str_has_prefix("cd", prefix) {
        r.push(String::from_str("cd"));
    }
    proof {
        assert(r@.map_values(|s: String| s@) =~= (if is_prefix_of(prefix@, "cd"@) {
            seq!["cd"@]
        } else {
            Seq::<Seq<char>>::empty()
        }));
    }
    let ghost c1 = r@.map_values(|s: String| s@);
    if str_has_prefix("ls", prefix) {
        r.push(String::from_str("ls"));
    }
    proof {
        assert(r@.map_values(|s: String| s@) =~= c1 + (if is_prefix_of(prefix@, "ls"@) {
            seq!["ls"@]
        } else {
            Seq::<Seq<char>>::empty()
        }));
    }
    let ghost c2 = r@.map_values(|s: String| s@);
    if str_has_prefix("echo", prefix) {
        r.push(String::from_str("echo"));
    }
    proof {
        assert(r@.map_values(|s: String| s@) =~= c2 + (if is_prefix_of(prefix@, "echo"@) {
            seq!["echo"@]
        } else {
            Seq::<Seq<char>>::empty()
        }));
    }
    let ghost c3 = r@.map_values(|s: String| s@);
    if str_has_prefix("cat", prefix) {
        r.push(String::from_str("cat"));
    }
    proof {
        assert(r@.map_values(|s: String| s@) =~= c3 + (if is_prefix_of(prefix@, "cat"@) {
            seq!["cat"@]
        } else {
            Seq::<Seq<char>>::empty()
        }));
    }
    let ghost c4 = r@.map_values(|s: String| s@);
    if str_has_prefix("grep", prefix) {
        r.push(String::from_str("grep"));
    }
    proof {
        assert(r@.map_values(|s: String| s@) =~= c4 + (if is_prefix_of(prefix@, "grep"@) {
            seq!["grep"@]
        } else {
            Seq::<Seq<char>>::empty()
        }));
    }
    let ghost c5 = r@.map_values(|s: String| s@);
    if str_has_prefix("history", prefix) {
        r.push(String::from_str("history"));
    }
    proof {
        assert(r@.map_values(|s: String| s@) =~= c5 + (if is_prefix_of(prefix@, "history"@) {
            seq!["history"@]
        } else {
            Seq::<Seq<char>>::empty()
        }));
    }
    let ghost c6 = r@.map_values(|s: String| s@);
    if str_has_prefix("exit", prefix) {
        r.push(String::from_str("exit"));
    }
    proof {
        assert(r@.map_values(|s: String| s@) =~= c6 + (if is_prefix_of(prefix@, "exit"@) {
            seq!["exit"@]
        } else {
            Seq::<Seq<char>>::empty()
        }));
        assert(r@.map_values(|s: String| s@) =~= completions_spec(prefix@));
    }
    r
}

} // verus!
