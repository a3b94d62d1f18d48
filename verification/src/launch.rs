//! Launch actions: a target holds one command per line, each a program and
//! its arguments, with double quotes grouping words that contain spaces.

use vstd::prelude::*;
use crate::text::{is_white_space, is_whitespace_char, str_chars, string_from_chars, trim_chars, trimmed};

verus! {

/// Splitting state after a prefix of a command line: finished words, the word
/// being built, and whether a quote is open.
pub open spec fn split_state(s: Seq<char>) -> (Seq<Seq<char>>, Seq<char>, bool)
    decreases s.len(),
{
    if s.len() == 0 {
        (Seq::empty(), Seq::empty(), false)
    } else {
        let (parts, current, quoted) = split_state(s.drop_last());
        let c = s.last();
        if c == '"' {
            (parts, current, !quoted)
        } else if is_white_space(c) && !quoted {
            if current.len() > 0 {
                (parts.push(current), Seq::empty(), quoted)
            } else {
                (parts, current, quoted)
            }
        } else {
            (parts, current.push(c), quoted)
        }
    }
}

/// The words of a command line: whitespace outside quotes separates words,
/// quote characters are dropped, and empty words are skipped.
pub open spec fn split_words(s: Seq<char>) -> Seq<Seq<char>> {
    let (parts, current, _) = split_state(s);
    if current.len() > 0 {
        parts.push(current)
    } else {
        parts
    }
}

pub open spec fn strings_view(v: Seq<String>) -> Seq<Seq<char>> {
    v.map_values(|x: String| x@)
}

fn split_chars(chars: &[char]) -> (r: Vec<String>)
    ensures
        strings_view(r@) == split_words(chars@),
{
    let mut parts: Vec<String> = Vec::new();
    let mut current: Vec<char> = Vec::new();
    let mut quoted = false;
    let mut i: usize = 0;
    assert(chars@.subrange(0, 0) =~= Seq::<char>::empty());
    assert(strings_view(parts@) =~= Seq::<Seq<char>>::empty());
    while i < chars.len()
        invariant
            i <= chars@.len(),
            split_state(chars@.subrange(0, i as int)) == (strings_view(parts@), current@, quoted),
        decreases chars@.len() - i,
    {
        let c = chars[i];
        let ghost prefix = chars@.subrange(0, i as int + 1);
        assert(prefix.drop_last() =~= chars@.subrange(0, i as int));
        assert(prefix.last() == c);
        if c == '"' {
            quoted = !quoted;
        } else if is_whitespace_char(c) && !quoted {
            if current.len() > 0 {
                let word = string_from_chars(current.as_slice());
                let ghost before = parts@;
                parts.push(word);
                assert(strings_view(parts@) =~= strings_view(before).push(current@));
                current = Vec::new();
            }
        } else {
            current.push(c);
        }
        i = i + 1;
    }
    assert(chars@.subrange(0, i as int) =~= chars@);
    if current.len() > 0 {
        let word = string_from_chars(current.as_slice());
        let ghost before = parts@;
        parts.push(word);
        assert(strings_view(parts@) =~= strings_view(before).push(current@));
    }
    parts
}

/// Splits a command line into the program and its arguments.
pub fn split_command_line(command_line: &str) -> (r: Vec<String>)
    ensures
        strings_view(r@) == split_words(command_line@),
        forall|i: int| 0 <= i < r@.len() ==> (#[trigger] r@[i])@.len() > 0,
{
    proof {
        lemma_words_are_not_empty(command_line@);
    }
    let chars = str_chars(command_line);
    let r = split_chars(chars.as_slice());
    proof {
        assert forall|i: int| 0 <= i < r@.len() implies (#[trigger] r@[i])@.len() > 0 by {
            assert(strings_view(r@)[i] == r@[i]@);
        };
    }
    r
}

/// The lines of a text, split at each newline.
pub open spec fn newline_parts(s: Seq<char>) -> Seq<Seq<char>>
    decreases s.len(),
{
    if s.len() == 0 {
        seq![Seq::<char>::empty()]
    } else if s.last() == '\n' {
        newline_parts(s.drop_last()).push(Seq::<char>::empty())
    } else {
        let p = newline_parts(s.drop_last());
        p.update(p.len() - 1, p.last().push(s.last()))
    }
}

/// The commands of a launch target, in order: each line trimmed, blank lines
/// skipped, each remaining line split into words, and lines without words
/// dropped.
pub open spec fn launch_commands_of(lines: Seq<Seq<char>>) -> Seq<Seq<Seq<char>>>
    decreases lines.len(),
{
    if lines.len() == 0 {
        Seq::empty()
    } else {
        let rest = launch_commands_of(lines.drop_last());
        let line = trimmed(lines.last());
        if line.len() > 0 && split_words(line).len() > 0 {
            rest.push(split_words(line))
        } else {
            rest
        }
    }
}

/// A text without a newline is one line.
pub proof fn lemma_newline_free_text_is_one_line(s: Seq<char>)
    requires
        forall|i: int| 0 <= i < s.len() ==> s[i] != '\n',
    ensures
        newline_parts(s) == seq![s],
    decreases s.len(),
{
    if s.len() > 0 {
        lemma_newline_free_text_is_one_line(s.drop_last());
        assert(s.drop_last().push(s.last()) =~= s);
    } else {
        assert(s =~= Seq::<char>::empty());
    }
}

/// A newline followed by a text without a newline adds that text as the
/// last line.
pub proof fn lemma_text_after_last_newline_is_last_line(before: Seq<char>, line: Seq<char>)
    requires
        forall|i: int| 0 <= i < line.len() ==> line[i] != '\n',
    ensures
        newline_parts(before + seq!['\n'] + line) == newline_parts(before).push(line),
    decreases line.len(),
{
    if line.len() == 0 {
        let t = before + seq!['\n'];
        assert(before + seq!['\n'] + line =~= t);
        assert(t.drop_last() =~= before);
        assert(line =~= Seq::<char>::empty());
    } else {
        let shorter = line.drop_last();
        lemma_text_after_last_newline_is_last_line(before, shorter);
        let t = before + seq!['\n'] + line;
        assert(t.drop_last() =~= before + seq!['\n'] + shorter);
        assert(t.last() == line.last());
        assert(shorter.push(line.last()) =~= line);
        assert(newline_parts(before).push(shorter).update(
            newline_parts(before).len() as int,
            shorter.push(line.last()),
        ) =~= newline_parts(before).push(line));
    }
}

/// A launch target of one line with words is launched as one command: the
/// words of that line.
pub proof fn lemma_single_line_target_is_one_command(target: Seq<char>)
    requires
        forall|i: int| 0 <= i < target.len() ==> target[i] != '\n',
        split_words(trimmed(target)).len() > 0,
    ensures
        launch_commands_of(newline_parts(target)) == seq![split_words(trimmed(target))],
{
    lemma_newline_free_text_is_one_line(target);
    let lines = seq![target];
    assert(lines.drop_last() =~= Seq::<Seq<char>>::empty());
    lemma_words_are_not_empty(trimmed(target));
    assert(split_words(trimmed(target))[0].len() > 0);
    assert(launch_commands_of(Seq::<Seq<char>>::empty()) == Seq::<Seq<Seq<char>>>::empty());
    assert(trimmed(target).len() > 0) by {
        if trimmed(target).len() == 0 {
            assert(trimmed(target) =~= Seq::<char>::empty());
            assert(split_state(Seq::<char>::empty()) == (Seq::<Seq<char>>::empty(), Seq::<char>::empty(), false));
        }
    };
    assert(lines.last() == target);
    assert(launch_commands_of(lines) == launch_commands_of(lines.drop_last()).push(split_words(trimmed(target))));
    assert(Seq::<Seq<Seq<char>>>::empty().push(split_words(trimmed(target))) =~= seq![split_words(trimmed(target))]);
}

/// The last line of a target, after its final newline and without a newline
/// of its own, is launched last when it has words; earlier lines are
/// launched as before.
pub proof fn lemma_last_line_is_launched(before: Seq<char>, line: Seq<char>)
    requires
        forall|i: int| 0 <= i < line.len() ==> line[i] != '\n',
        split_words(trimmed(line)).len() > 0,
    ensures
        launch_commands_of(newline_parts(before + seq!['\n'] + line)) == launch_commands_of(
            newline_parts(before),
        ).push(split_words(trimmed(line))),
{
    lemma_text_after_last_newline_is_last_line(before, line);
    let lines = newline_parts(before).push(line);
    assert(lines.drop_last() =~= newline_parts(before));
    assert(trimmed(line).len() > 0) by {
        if trimmed(line).len() == 0 {
            assert(trimmed(line) =~= Seq::<char>::empty());
            assert(split_state(Seq::<char>::empty()) == (Seq::<Seq<char>>::empty(), Seq::<char>::empty(), false));
        }
    };
}

/// The words of a command line are never empty.
pub proof fn lemma_words_are_not_empty(s: Seq<char>)
    ensures
        forall|i: int| 0 <= i < split_words(s).len() ==> (#[trigger] split_words(s)[i]).len() > 0,
{
    lemma_split_parts_not_empty(s);
}

proof fn lemma_split_parts_not_empty(s: Seq<char>)
    ensures
        forall|i: int| 0 <= i < split_state(s).0.len() ==> (#[trigger] split_state(s).0[i]).len() > 0,
    decreases s.len(),
{
    if s.len() > 0 {
        lemma_split_parts_not_empty(s.drop_last());
        let (parts, current, quoted) = split_state(s.drop_last());
        let c = s.last();
        if is_white_space(c) && !quoted && c != '"' && current.len() > 0 {
            assert(split_state(s).0 == parts.push(current));
            assert forall|i: int| 0 <= i < parts.push(current).len() implies (#[trigger] parts.push(current)[i]).len() > 0 by {
                if i < parts.len() {
                    assert(parts.push(current)[i] == parts[i]);
                }
            };
        } else {
            assert(split_state(s).0 == parts);
        }
    }
}

pub open spec fn commands_view(v: Seq<Vec<String>>) -> Seq<Seq<Seq<char>>> {
    v.map_values(|c: Vec<String>| strings_view(c@))
}

fn add_line_command(out: &mut Vec<Vec<String>>, line: &Vec<char>)
    ensures
        ({
            let t = trimmed(line@);
            commands_view(final(out)@) == if t.len() > 0 && split_words(t).len() > 0 {
                commands_view(old(out)@).push(split_words(t))
            } else {
                commands_view(old(out)@)
            }
        }),
{
    let t = trim_chars(line.as_slice());
    if t.len() > 0 {
        let words = split_chars(t.as_slice());
        if words.len() > 0 {
            let ghost before = out@;
            out.push(words);
            assert(commands_view(out@) =~= commands_view(before).push(split_words(t@)));
        }
    }
}

/// The commands that a launch target runs.
pub fn launch_commands(target: &str) -> (r: Vec<Vec<String>>)
    ensures
        commands_view(r@) == launch_commands_of(newline_parts(target@)),
{
    let chars = str_chars(target);
    let mut out: Vec<Vec<String>> = Vec::new();
    let mut line: Vec<char> = Vec::new();
    let ghost mut done: Seq<Seq<char>> = Seq::empty();
    let mut i: usize = 0;
    assert(chars@.subrange(0, 0) =~= Seq::<char>::empty());
    assert(commands_view(out@) =~= Seq::<Seq<Seq<char>>>::empty());
    while i < chars.len()
        invariant
            i <= chars@.len(),
            chars@ == target@,
            newline_parts(chars@.subrange(0, i as int)) == done.push(line@),
            commands_view(out@) == launch_commands_of(done),
        decreases chars@.len() - i,
    {
        let c = chars[i];
        let ghost prefix = chars@.subrange(0, i as int + 1);
        assert(prefix.drop_last() =~= chars@.subrange(0, i as int));
        if c == '\n' {
            add_line_command(&mut out, &line);
            proof {
                let old_done = done;
                done = done.push(line@);
                assert(done.drop_last() =~= old_done);
            }
            line = Vec::new();
            assert(newline_parts(prefix) =~= done.push(line@));
        } else {
            line.push(c);
            assert(newline_parts(prefix) =~= done.push(line@));
        }
        i = i + 1;
    }
    assert(chars@.subrange(0, i as int) =~= chars@);
    add_line_command(&mut out, &line);
    assert(done.push(line@).drop_last() =~= done);
    out
}

/// The command `c` was handed to `launch`: its first word as the program and
/// the other words as its arguments.
pub open spec fn launched<L: Fn(&str, &[String])>(launch: L, c: Seq<Seq<char>>) -> bool {
    c.len() > 0 ==> exists|program: &str, args: &[String]|
        #[trigger] launch.ensures((program, args), ()) && program@ == c[0] && strings_view(args@) == c.subrange(
            1,
            c.len() as int,
        )
}

/// The first `n` commands were handed to `launch`.
pub open spec fn launched_prefix<L: Fn(&str, &[String])>(launch: L, commands: Seq<Seq<Seq<char>>>, n: int) -> bool {
    forall|i: int| 0 <= i < n ==> launched(launch, #[trigger] commands[i])
}

/// Runs the commands of a launch target in order, asking for permission
/// before each one and stopping at the first refusal.
pub fn visit_launch_commands<P: Fn() -> bool, L: Fn(&str, &[String])>(
    target: &str,
    permitted: P,
    launch: L,
)
    requires
        permitted.requires(()),
        forall|program: &str, args: &[String]| #[trigger] launch.requires((program, args)),
    ensures
        ({
            let commands = launch_commands_of(newline_parts(target@));
            exists|n: int|
                0 <= n <= commands.len() && (n < commands.len() ==> permitted.ensures((), false)) && (n > 0
                    ==> permitted.ensures((), true)) && #[trigger] launched_prefix(launch, commands, n)
        }),
{
    let commands = launch_commands(target);
    let ghost all = commands_view(commands@);
    let mut i: usize = 0;
    while i < commands.len()
        invariant
            i <= commands@.len(),
            all == commands_view(commands@),
            all == launch_commands_of(newline_parts(target@)),
            permitted.requires(()),
            forall|program: &str, args: &[String]| #[trigger] launch.requires((program, args)),
            i > 0 ==> permitted.ensures((), true),
            launched_prefix(launch, all, i as int),
        decreases commands@.len() - i,
    {
        if !permitted() {
            assert(permitted.ensures((), false));
            assert(i < all.len());
            assert(launched_prefix(launch, all, i as int));
            return;
        }
        let command = &commands[i];
        assert(all[i as int] == strings_view(command@));
        if command.len() > 0 {
            let program = command[0].as_str();
            let args = slice_from(command.as_slice(), 1);
            launch(program, args);
            proof {
                assert(strings_view(args@) =~= strings_view(command@).subrange(1, command@.len() as int));
                assert(launch.ensures((program, args), ()));
                assert(launched(launch, all[i as int]));
            }
        }
        proof {
            assert forall|j: int| 0 <= j < i + 1 implies launched(launch, #[trigger] all[j]) by {
                if j < i {
                    assert(launched_prefix(launch, all, i as int));
                }
            };
        }
        i = i + 1;
    }
    assert(launched_prefix(launch, all, i as int));
}

/// The elements of `s` from index `from` on.
fn slice_from<T>(s: &[T], from: usize) -> (r: &[T])
    requires
        from <= s@.len(),
    ensures
        r@ == s@.subrange(from as int, s@.len() as int),
{
    vstd::slice::slice_subrange(s, from, s.len())
}

} // verus!
