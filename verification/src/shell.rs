//! Shell integration: choosing the startup file of the user's shell and
//! keeping the line that sources the credential file in it exactly once.

use vstd::prelude::*;
use vstd::string::StringExecFns;
use crate::strutil::contains_seq;
use crate::strutil::str_contains;
use crate::strutil::str_eq;

verus! {

/// The line that loads the credential file into a shell session.
pub open spec fn source_line() -> Seq<char> {
    "source ~/.lpu_creds"@
}

/// The shell named by the contents of the shell indicator is supported.
pub open spec fn shell_supported(shell: Seq<char>) -> bool {
    ||| contains_seq(shell, "bash"@)
    ||| contains_seq(shell, "zsh"@)
    ||| contains_seq(shell, "fish"@)
}

/// The startup file, relative to the home directory, of the shell named
/// by the indicator; `bash` is preferred over `zsh` over `fish` when the
/// indicator names several.
pub open spec fn shell_config_rel(shell: Seq<char>) -> Seq<char> {
    if contains_seq(shell, "bash"@) {
        ".bashrc"@
    } else if contains_seq(shell, "zsh"@) {
        ".zshrc"@
    } else {
        ".config/fish/config.fish"@
    }
}

/// Resolves the shell indicator to the startup file to update, or
/// nothing when the shell is unsupported.
pub fn shell_config_rel_path(shell: &str) -> (r: Option<String>)
    ensures
        r is Some <==> shell_supported(shell@),
        (r matches Some(p) ==> p@ == shell_config_rel(shell@)),
{
    if str_contains(shell, "bash") {
        Some(String::from_str(".bashrc"))
    } else if str_contains(shell, "zsh") {
        Some(String::from_str(".zshrc"))
    } else if str_contains(shell, "fish") {
        Some(String::from_str(".config/fish/config.fish"))
    } else {
        None
    }
}

/// The source line as an executable value.
pub fn credential_source_line() -> (r: String)
    ensures
        r@ == source_line(),
{
    String::from_str("source ~/.lpu_creds")
}

/// Whether the startup file, given as its lines, still lacks the source
/// line, so that an append is due.
pub fn needs_source_line(lines: &Vec<String>) -> (r: bool)
    ensures
        r == !lines.deep_view().contains(source_line()),
{
    let n = lines.len();
    let mut i: usize = 0;
    while i < n
        invariant
            n == lines@.len(),
            i <= n,
            forall|k: int| 0 <= k < i ==> lines.deep_view()[k] != source_line(),
        decreases n - i,
    {
        if str_eq(lines[i].as_str(), "source ~/.lpu_creds") {
            assert(lines.deep_view()[i as int] == source_line());
            return false;
        }
        i += 1;
    }
    true
}

/// What one run of the shell-integration step leaves in the startup
/// file: the source line is appended only when absent.
pub open spec fn with_source_line(lines: Seq<Seq<char>>) -> Seq<Seq<char>> {
    if lines.contains(source_line()) {
        lines
    } else {
        lines.push(source_line())
    }
}

/// Performs the shell-integration step on the startup file's lines.
pub fn append_source_line(lines: &mut Vec<String>)
    ensures
        final(lines).deep_view() == with_source_line(old(lines).deep_view()),
{
    if needs_source_line(lines) {
        lines.push(credential_source_line());
        assert(lines.deep_view() =~= old(lines).deep_view().push(source_line()));
    }
}

/// How often `l` occurs among `lines`.
pub open spec fn count_eq(lines: Seq<Seq<char>>, l: Seq<char>) -> nat
    decreases lines.len(),
{
    if lines.len() == 0 {
        0
    } else {
        count_eq(lines.drop_last(), l) + (if lines.last() == l {
            1nat
        } else {
            0nat
        })
    }
}

/// A line that does not occur has count zero.
pub proof fn lemma_count_absent(lines: Seq<Seq<char>>, l: Seq<char>)
    requires
        !lines.contains(l),
    ensures
        count_eq(lines, l) == 0,
    decreases lines.len(),
{
    if lines.len() > 0 {
        assert(lines[lines.len() - 1] != l);
        assert(!lines.drop_last().contains(l)) by {
            if lines.drop_last().contains(l) {
                let i = choose|i: int|
                    0 <= i < lines.drop_last().len() && lines.drop_last()[i] == l;
                assert(lines[i] == l);
            }
        };
        lemma_count_absent(lines.drop_last(), l);
    }
}

/// Law: the shell-integration step is idempotent; a second run never
/// appends the source line again.
pub proof fn lemma_source_line_idempotent(lines: Seq<Seq<char>>)
    ensures
        with_source_line(with_source_line(lines)) == with_source_line(lines),
{
    if !lines.contains(source_line()) {
        assert(lines.push(source_line())[lines.len() as int] == source_line());
    }
}

/// Law: on a startup file that lacks the source line, the
/// shell-integration step leaves it occurring exactly once, and further
/// runs keep it so.
pub proof fn lemma_source_line_once(lines: Seq<Seq<char>>)
    requires
        !lines.contains(source_line()),
    ensures
        count_eq(with_source_line(lines), source_line()) == 1,
        count_eq(with_source_line(with_source_line(lines)), source_line()) == 1,
{
    lemma_count_absent(lines, source_line());
    assert(lines.push(source_line()).drop_last() =~= lines);
    lemma_source_line_idempotent(lines);
}

} // verus!
