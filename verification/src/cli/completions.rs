//! Shell completion scripts: the generated static completions, extended with
//! calls back into the tool for the values that depend on the hardware.

use vstd::prelude::*;

use crate::text::{chars_of, chars_eq_str, push_char, push_chars, push_str};

verus! {

/// The name of the executable.
pub const BIN_NAME: &'static str = "gnome-randr";

/// How the generated bash script opens its completion function.
pub const BASH_FUNCTION_NAME: &'static str = "_gnome-randr()";

/// How the generated zsh script opens its completion function.
pub const ZSH_FUNCTION_NAME: &'static str = "_gnome-randr() {";

/// The command that fish calls for dynamic values.
pub const COMPLETE_FISH_COMMAND: &'static str = "gnome-randr __complete";

/// Whether `p` occurs in `s` at `i`.
pub open spec fn occurs_at(s: Seq<char>, p: Seq<char>, i: int) -> bool {
    0 <= i && i + p.len() <= s.len() && s.subrange(i, i + p.len()) == p
}

/// The first place where `p` occurs in `s` (`s.len() + 1` where it does not).
pub open spec fn first_occurrence(s: Seq<char>, p: Seq<char>) -> int {
    crate::search::first_index(s.len() + 1, |i: int| occurs_at(s, p, i))
}

/// `str::replacen(p, r, 1)`: the first occurrence of `p` replaced by `r`.
pub open spec fn replace_first(s: Seq<char>, p: Seq<char>, r: Seq<char>) -> Seq<char> {
    let i = first_occurrence(s, p);
    if i <= s.len() {
        s.take(i) + r + s.skip(i + p.len())
    } else {
        s
    }
}

/// Replaces the first occurrence of `pattern` in `s` by `replacement`.
pub fn replace_first_str(s: &str, pattern: &str, replacement: &str) -> (r: String)
    ensures
        r@ == replace_first(s@, pattern@, replacement@),
{
    let chars = chars_of(s);
    let p = chars_of(pattern);
    let ghost pred = |i: int| occurs_at(chars@, p@, i);
    let mut i: usize = 0;
    loop
        invariant
            0 <= i <= chars@.len(),
            chars@ == s@,
            p@ == pattern@,
            pred == (|i: int| occurs_at(chars@, p@, i)),
            forall|j: int| 0 <= j < i ==> !#[trigger] pred(j),
        ensures
            forall|j: int| 0 <= j <= chars@.len() ==> !#[trigger] pred(j),
        decreases chars@.len() - i,
    {
        if p.len() <= chars.len() - i && chars_eq_str(&chars, i, i + p.len(), pattern) {
            proof {
                crate::search::lemma_first_index(chars@.len() + 1, pred, i as int);
            }
            let mut r = String::new();
            push_chars(&mut r, &chars, 0, i);
            push_str(&mut r, replacement);
            push_chars(&mut r, &chars, i + p.len(), chars.len());
            assert(chars@.subrange(0, i as int) =~= chars@.take(i as int));
            assert(chars@.subrange(i + p@.len(), chars@.len() as int) =~= chars@.skip(i + p@.len()));
            assert(Seq::<char>::empty() + chars@.take(i as int) =~= chars@.take(i as int));
            return r;
        }
        assert(!pred(i as int));
        if i == chars.len() {
            break;
        }
        i = i + 1;
    }
    proof {
        crate::search::lemma_first_index(chars@.len() + 1, pred, chars@.len() + 1 as int);
    }
    s.to_owned()
}

/// A character of the executable's name as bash function names need it: `-` as `__`.
pub open spec fn bash_char(c: char) -> Seq<char> {
    if c == '-' {
        "__"@
    } else {
        seq![c]
    }
}

pub open spec fn bash_name(s: Seq<char>) -> Seq<char>
    decreases s.len(),
{
    if s.len() == 0 {
        Seq::empty()
    } else {
        bash_name(s.drop_last()) + bash_char(s.last())
    }
}

/// The executable's name as the generated bash script names its commands.
pub fn bash_command_root() -> (r: String)
    ensures
        r@ == bash_name(BIN_NAME@),
{
    let chars = chars_of(BIN_NAME);
    let mut r = String::new();
    let mut i: usize = 0;
    while i < chars.len()
        invariant
            0 <= i <= chars@.len(),
            chars@ == BIN_NAME@,
            r@ == bash_name(chars@.take(i as int)),
        decreases chars@.len() - i,
    {
        let ghost before = r@;
        if chars[i] == '-' {
            push_str(&mut r, "__");
        } else {
            push_char(&mut r, chars[i]);
            assert(before.push(chars[i as int]) =~= before + seq![chars[i as int]]);
        }
        assert(chars@.take(i + 1).drop_last() =~= chars@.take(i as int));
        assert(chars@.take(i + 1).last() == chars@[i as int]);
        i = i + 1;
    }
    assert(chars@.take(i as int) =~= chars@);
    r
}

/// The bash functions appended to the generated script: one that asks the
/// tool for dynamic values, and the completion function, which offers them
/// where there are any and falls back on the generated completions.
pub open spec fn bash_tail() -> Seq<char> {
    "\n__gnome_randr_dynamic_values() {\n    local cur\n    cur=\"${COMP_WORDS[COMP_CWORD]}\"\n    command "@
        + BIN_NAME@
        + " __complete \"$cur\" \"${COMP_WORDS[@]:1:COMP_CWORD-1}\" 2>/dev/null\n}\n\n_gnome-randr() {\n    local cur\n    local -a suggestions\n\n    COMPREPLY=()\n    cur=\"${COMP_WORDS[COMP_CWORD]}\"\n\n    mapfile -t suggestions < <(__gnome_randr_dynamic_values)\n    if (( ${#suggestions[@]} > 0 )); then\n        COMPREPLY=( $(compgen -W \"${suggestions[*]}\" -- \"${cur}\") )\n        return 0\n    fi\n\n    __gnome_randr_static\n}\n"@
}

/// The generated bash script with its completion function renamed, its
/// command names in bash form, and the dynamic completion appended.
pub open spec fn augment_bash_spec(generated: Seq<char>) -> Seq<char> {
    let s1 = replace_first(generated, BASH_FUNCTION_NAME@, "__gnome_randr_static()"@);
    let s2 = replace_first(s1, "cmd=\""@ + BIN_NAME@ + "\""@, "cmd=\""@ + bash_name(BIN_NAME@) + "\""@);
    let s3 = replace_first(
        s2,
        "case \"${cmd}\" in\n        "@ + BIN_NAME@ + ")"@,
        "case \"${cmd}\" in\n        "@ + bash_name(BIN_NAME@) + ")"@,
    );
    s3 + bash_tail()
}

pub fn augment_bash(generated: String) -> (r: String)
    ensures
        r@ == augment_bash_spec(generated@),
{
    let root = bash_command_root();
    let mut script = replace_first_str(generated.as_str(), BASH_FUNCTION_NAME, "__gnome_randr_static()");
    let mut from = "cmd=\"".to_owned();
    push_str(&mut from, BIN_NAME);
    push_str(&mut from, "\"");
    let mut to = "cmd=\"".to_owned();
    push_str(&mut to, root.as_str());
    push_str(&mut to, "\"");
    script = replace_first_str(script.as_str(), from.as_str(), to.as_str());
    let mut from = "case \"${cmd}\" in\n        ".to_owned();
    push_str(&mut from, BIN_NAME);
    push_str(&mut from, ")");
    let mut to = "case \"${cmd}\" in\n        ".to_owned();
    push_str(&mut to, root.as_str());
    push_str(&mut to, ")");
    script = replace_first_str(script.as_str(), from.as_str(), to.as_str());
    let ghost body = script@;
    push_str(
        &mut script,
        "\n__gnome_randr_dynamic_values() {\n    local cur\n    cur=\"${COMP_WORDS[COMP_CWORD]}\"\n    command ",
    );
    push_str(&mut script, BIN_NAME);
    push_str(
        &mut script,
        " __complete \"$cur\" \"${COMP_WORDS[@]:1:COMP_CWORD-1}\" 2>/dev/null\n}\n\n_gnome-randr() {\n    local cur\n    local -a suggestions\n\n    COMPREPLY=()\n    cur=\"${COMP_WORDS[COMP_CWORD]}\"\n\n    mapfile -t suggestions < <(__gnome_randr_dynamic_values)\n    if (( ${#suggestions[@]} > 0 )); then\n        COMPREPLY=( $(compgen -W \"${suggestions[*]}\" -- \"${cur}\") )\n        return 0\n    fi\n\n    __gnome_randr_static\n}\n",
    );
    assert(script@ =~= body + bash_tail());
    script
}

/// The zsh functions appended to the generated script: the completion
/// function, which offers the tool's dynamic values where there are any and
/// falls back on the generated completions, and its registration, which
/// works both where the file is autoloaded and where it is evaluated.
pub open spec fn zsh_tail() -> Seq<char> {
    "\n_gnome-randr() {\n    local dynamic_output\n    local -a suggestions prior_words\n\n    prior_words=(\"${(@)words[2,CURRENT-1]}\")\n    dynamic_output=$(command gnome-randr __complete \"$PREFIX\" \"${prior_words[@]}\" 2>/dev/null)\n    if [[ -n $dynamic_output ]]; then\n        suggestions=(${(f)dynamic_output})\n        compadd -- $suggestions\n        return 0\n    fi\n\n    __gnome_randr_static \"$@\"\n}\n\nif [[ \"${funcstack[1]-}\" == \"_gnome-randr\" || \"${funcstack[1]-}\" == \"_gnome_randr\" ]]; then\n    _gnome-randr \"$@\"\nelif (( $+functions[compdef] )); then\n    compdef _gnome-randr gnome-randr\nfi\n"@
}

/// The generated zsh script with its completion function renamed, its call
/// removed, and the dynamic completion appended.
pub open spec fn augment_zsh_spec(generated: Seq<char>) -> Seq<char> {
    let s1 = replace_first(generated, ZSH_FUNCTION_NAME@, "__gnome_randr_static() {"@);
    let s2 = replace_first(s1, "_gnome-randr \"$@\""@, Seq::empty());
    s2 + zsh_tail()
}

pub fn augment_zsh(generated: String) -> (r: String)
    ensures
        r@ == augment_zsh_spec(generated@),
{
    let mut script = replace_first_str(generated.as_str(), ZSH_FUNCTION_NAME, "__gnome_randr_static() {");
    script = replace_first_str(script.as_str(), "_gnome-randr \"$@\"", "");
    let ghost body = script@;
    push_str(
        &mut script,
        "\n_gnome-randr() {\n    local dynamic_output\n    local -a suggestions prior_words\n\n    prior_words=(\"${(@)words[2,CURRENT-1]}\")\n    dynamic_output=$(command gnome-randr __complete \"$PREFIX\" \"${prior_words[@]}\" 2>/dev/null)\n    if [[ -n $dynamic_output ]]; then\n        suggestions=(${(f)dynamic_output})\n        compadd -- $suggestions\n        return 0\n    fi\n\n    __gnome_randr_static \"$@\"\n}\n\nif [[ \"${funcstack[1]-}\" == \"_gnome-randr\" || \"${funcstack[1]-}\" == \"_gnome_randr\" ]]; then\n    _gnome-randr \"$@\"\nelif (( $+functions[compdef] )); then\n    compdef _gnome-randr gnome-randr\nfi\n",
    );
    proof {
        reveal_strlit("");
    }
    assert(script@ =~= body + zsh_tail());
    script
}

/// The fish function that asks the tool for dynamic values, and its
/// registration, appended to the generated script.
pub open spec fn fish_tail() -> Seq<char> {
    "\n\nfunction __fish_gnome_randr_dynamic\n    set -l tokens (commandline -opc)\n    set -l current (commandline -ct)\n    if test (count $tokens) -gt 0\n        if test \"$current\" != \"\"; and test \"$tokens[-1]\" = \"$current\"\n            set -e tokens[-1]\n        end\n        set -e tokens[1]\n    end\n\n    command "@
        + COMPLETE_FISH_COMMAND@ + " \"$current\" $tokens 2>/dev/null\nend\n\ncomplete -c "@ + BIN_NAME@
        + " -f -a '(__fish_gnome_randr_dynamic)'\n"@
}

pub fn augment_fish(generated: String) -> (r: String)
    ensures
        r@ == generated@ + fish_tail(),
{
    let mut script = generated;
    let ghost body = script@;
    push_str(
        &mut script,
        "\n\nfunction __fish_gnome_randr_dynamic\n    set -l tokens (commandline -opc)\n    set -l current (commandline -ct)\n    if test (count $tokens) -gt 0\n        if test \"$current\" != \"\"; and test \"$tokens[-1]\" = \"$current\"\n            set -e tokens[-1]\n        end\n        set -e tokens[1]\n    end\n\n    command ",
    );
    push_str(&mut script, COMPLETE_FISH_COMMAND);
    push_str(&mut script, " \"$current\" $tokens 2>/dev/null\nend\n\ncomplete -c ");
    push_str(&mut script, BIN_NAME);
    push_str(&mut script, " -f -a '(__fish_gnome_randr_dynamic)'\n");
    assert(script@ =~= body + fish_tail());
    script
}

} // verus!
