//! How a Windows program takes its command line apart, and the proof that the
//! quoting of [`super::launch_quote`] survives it.
//!
//! The rules are those of `CommandLineToArgvW`.  The program name ends at the
//! next quote where the line starts with one, and at the next blank otherwise;
//! backslashes mean nothing inside it.  Behind it, blanks outside quotes part
//! the arguments; `2n` backslashes before a quote stand for `n` backslashes,
//! and the quote opens or closes a quoted part; `2n + 1` backslashes before a
//! quote stand for `n` backslashes and the quote itself; any other backslash
//! stands for itself.  Two quotes in a row inside a quoted part are read here
//! as closing and opening; the quoting never writes that, so the rule that
//! Windows has for it never comes into play.

use super::launch_quote::{
    any_has_nul, backslashes, command_line, has_nul, needs_quotes, quoted_arg, quoted_body,
    quoted_tail, BACKSLASH, NUL, QUOTE, SPACE, TAB,
};
use vstd::prelude::*;

verus! {

/// What the parser knows between two code units.
pub struct ParseState {
    /// The arguments that are complete.
    pub args: Seq<Seq<u16>>,
    /// The argument that is being read, without the backslashes in `slashes`.
    pub cur: Seq<u16>,
    /// Whether an argument is being read.
    pub in_arg: bool,
    /// Whether a quoted part is open.
    pub in_quotes: bool,
    /// The length of the run of backslashes read last.
    pub slashes: nat,
}

/// True for the code units that part arguments.
pub open spec fn is_blank(c: u16) -> bool {
    c == SPACE || c == TAB
}

/// The arguments read so far, the one being read included.
pub open spec fn settled(st: ParseState) -> Seq<Seq<u16>> {
    if st.in_arg {
        st.args.push(st.cur + backslashes(st.slashes))
    } else {
        st.args
    }
}

/// The parser's move on one code unit.
pub open spec fn step(st: ParseState, c: u16) -> ParseState {
    if c == BACKSLASH {
        ParseState { in_arg: true, slashes: st.slashes + 1, ..st }
    } else if c == QUOTE {
        if st.slashes % 2 == 0 {
            ParseState {
                cur: st.cur + backslashes(st.slashes / 2),
                in_arg: true,
                in_quotes: !st.in_quotes,
                slashes: 0,
                ..st
            }
        } else {
            ParseState {
                cur: (st.cur + backslashes(st.slashes / 2)).push(QUOTE),
                in_arg: true,
                slashes: 0,
                ..st
            }
        }
    } else if is_blank(c) && !st.in_quotes {
        ParseState {
            args: settled(st),
            cur: Seq::empty(),
            in_arg: false,
            in_quotes: false,
            slashes: 0,
        }
    } else {
        ParseState {
            cur: (st.cur + backslashes(st.slashes)).push(c),
            in_arg: true,
            slashes: 0,
            ..st
        }
    }
}

/// The parser's state after a stretch of the line.
pub open spec fn run(line: Seq<u16>, st: ParseState) -> ParseState
    decreases line.len(),
{
    if line.len() == 0 {
        st
    } else {
        run(line.drop_first(), step(st, line[0]))
    }
}

/// The place of the first code unit `unit`, or the length where there is none.
pub open spec fn first_unit(line: Seq<u16>, unit: u16) -> int
    decreases line.len(),
{
    if line.len() == 0 || line[0] == unit {
        0
    } else {
        1 + first_unit(line.drop_first(), unit)
    }
}

/// The place of the first blank, or the length where there is none.
pub open spec fn first_blank(line: Seq<u16>) -> int
    decreases line.len(),
{
    if line.len() == 0 || is_blank(line[0]) {
        0
    } else {
        1 + first_blank(line.drop_first())
    }
}

/// The program name at the head of a line.
pub open spec fn program_name(line: Seq<u16>) -> Seq<u16> {
    if line.len() > 0 && line[0] == QUOTE {
        line.skip(1).take(first_unit(line.skip(1), QUOTE))
    } else {
        line.take(first_blank(line))
    }
}

/// What of a line stands behind the program name.
pub open spec fn behind_program_name(line: Seq<u16>) -> Seq<u16> {
    if line.len() > 0 && line[0] == QUOTE {
        let n = first_unit(line.skip(1), QUOTE);
        if n < line.len() - 1 {
            line.skip(n + 2)
        } else {
            Seq::empty()
        }
    } else {
        line.skip(first_blank(line))
    }
}

/// The program name and the arguments that a program finds in a command line.
pub open spec fn parse_command_line(line: Seq<u16>) -> Seq<Seq<u16>> {
    settled(
        run(
            behind_program_name(line),
            ParseState {
                args: seq![program_name(line)],
                cur: Seq::empty(),
                in_arg: false,
                in_quotes: false,
                slashes: 0,
            },
        ),
    )
}

/// The text of a buffer that is read up to its first NUL.
pub open spec fn text_before_nul(buf: Seq<u16>) -> Seq<u16> {
    buf.take(first_unit(buf, NUL))
}

/// Running over two stretches is running over the first and going on with the
/// second.
pub proof fn lemma_run_concat(a: Seq<u16>, b: Seq<u16>, st: ParseState)
    ensures
        run(a + b, st) == run(b, run(a, st)),
    decreases a.len(),
{
    if a.len() == 0 {
        assert(a + b =~= b);
    } else {
        assert((a + b).drop_first() =~= a.drop_first() + b);
        lemma_run_concat(a.drop_first(), b, step(st, a[0]));
    }
}

/// Running over one code unit is one move.
proof fn lemma_run_one(c: u16, st: ParseState)
    ensures
        run(seq![c], st) == step(st, c),
{
    assert(seq![c].drop_first() =~= Seq::<u16>::empty());
    assert(run(seq![c].drop_first(), step(st, c)) == step(st, c));
}

/// A run of backslashes is only counted.
proof fn lemma_run_backslashes(n: nat, st: ParseState)
    ensures
        run(backslashes(n), st) == (ParseState {
            in_arg: st.in_arg || n > 0,
            slashes: st.slashes + n,
            ..st
        }),
    decreases n,
{
    if n > 0 {
        assert(backslashes(n).drop_first() =~= backslashes((n - 1) as nat));
        lemma_run_backslashes((n - 1) as nat, step(st, BACKSLASH));
    }
}

/// A stretch without quotes, and without blanks unless a quoted part is open,
/// is taken over as it is.
proof fn lemma_run_plain(a: Seq<u16>, st: ParseState)
    requires
        forall|i: int| 0 <= i < a.len() ==> a[i] != QUOTE,
        st.in_quotes || forall|i: int| 0 <= i < a.len() ==> !is_blank(a[i]),
    ensures
        run(a, st).args == st.args,
        run(a, st).in_quotes == st.in_quotes,
        run(a, st).in_arg == (st.in_arg || a.len() > 0),
        run(a, st).cur + backslashes(run(a, st).slashes) == st.cur + backslashes(st.slashes) + a,
    decreases a.len(),
{
    if a.len() == 0 {
        assert(st.cur + backslashes(st.slashes) + a =~= st.cur + backslashes(st.slashes));
    } else {
        let next = step(st, a[0]);
        let rest = a.drop_first();
        lemma_run_plain(rest, next);
        assert(backslashes(st.slashes + 1) =~= backslashes(st.slashes).push(BACKSLASH));
        assert(next.cur + backslashes(next.slashes) =~= st.cur + backslashes(st.slashes) + seq![
            a[0],
        ]);
        assert(st.cur + backslashes(st.slashes) + seq![a[0]] + rest =~= st.cur + backslashes(
            st.slashes,
        ) + a);
    }
}

/// Inside quotes, the body written for an argument and the closing quote are
/// read back as the argument.
proof fn lemma_run_quoted_body(arg: Seq<u16>, pending: nat, st: ParseState)
    requires
        st.in_quotes,
        st.slashes == 0,
    ensures
        run(quoted_body(arg, pending).push(QUOTE), st) == (ParseState {
            args: st.args,
            cur: st.cur + backslashes(pending) + arg,
            in_arg: true,
            in_quotes: false,
            slashes: 0,
        }),
    decreases arg.len(),
{
    let goal = ParseState {
        args: st.args,
        cur: st.cur + backslashes(pending) + arg,
        in_arg: true,
        in_quotes: false,
        slashes: 0,
    };
    if arg.len() == 0 {
        let counted = run(backslashes(2 * pending), st);
        lemma_run_backslashes(2 * pending, st);
        assert(quoted_body(arg, pending).push(QUOTE) =~= backslashes(2 * pending) + seq![QUOTE]);
        lemma_run_concat(backslashes(2 * pending), seq![QUOTE], st);
        lemma_run_one(QUOTE, counted);
        assert((2 * pending) / 2 == pending);
        assert(st.cur + backslashes(pending) + arg =~= st.cur + backslashes(pending));
    } else if arg[0] == BACKSLASH {
        lemma_run_quoted_body(arg.drop_first(), pending + 1, st);
        assert(backslashes(pending + 1) =~= backslashes(pending).push(BACKSLASH));
        assert(st.cur + backslashes(pending + 1) + arg.drop_first() =~= st.cur + backslashes(
            pending,
        ) + arg);
    } else if arg[0] == QUOTE {
        let head = backslashes(2 * pending + 1);
        let tail = quoted_body(arg.drop_first(), 0).push(QUOTE);
        assert(quoted_body(arg, pending).push(QUOTE) =~= head + (seq![QUOTE] + tail));
        lemma_run_concat(head, seq![QUOTE] + tail, st);
        lemma_run_backslashes(2 * pending + 1, st);
        let counted = run(head, st);
        assert((seq![QUOTE] + tail).drop_first() =~= tail);
        let escaped = step(counted, QUOTE);
        assert((2 * pending + 1) / 2 == pending);
        lemma_run_quoted_body(arg.drop_first(), 0, escaped);
        assert(backslashes(0) =~= Seq::<u16>::empty());
        assert(escaped.cur + backslashes(0) + arg.drop_first() =~= st.cur + backslashes(pending)
            + arg);
    } else {
        let head = backslashes(pending);
        let tail = quoted_body(arg.drop_first(), 0).push(QUOTE);
        assert(quoted_body(arg, pending).push(QUOTE) =~= head + (seq![arg[0]] + tail));
        lemma_run_concat(head, seq![arg[0]] + tail, st);
        lemma_run_backslashes(pending, st);
        let counted = run(head, st);
        assert((seq![arg[0]] + tail).drop_first() =~= tail);
        let taken = step(counted, arg[0]);
        lemma_run_quoted_body(arg.drop_first(), 0, taken);
        assert(backslashes(0) =~= Seq::<u16>::empty());
        assert(taken.cur + backslashes(0) + arg.drop_first() =~= st.cur + backslashes(pending)
            + arg);
    }
}

/// A blank and one written argument close the argument before and leave the
/// new one as the argument being read.
proof fn lemma_run_quoted_arg(arg: Seq<u16>, st: ParseState)
    requires
        !st.in_quotes,
    ensures
        run(seq![SPACE] + quoted_arg(arg), st).args == settled(st),
        !run(seq![SPACE] + quoted_arg(arg), st).in_quotes,
        run(seq![SPACE] + quoted_arg(arg), st).in_arg,
        settled(run(seq![SPACE] + quoted_arg(arg), st)) == settled(st).push(arg),
{
    let written = quoted_arg(arg);
    let parted = step(st, SPACE);
    assert((seq![SPACE] + written).drop_first() =~= written);
    assert(run(seq![SPACE] + written, st) == run(written, parted));
    if needs_quotes(arg) {
        let body = quoted_body(arg, 0).push(QUOTE);
        assert(written =~= seq![QUOTE] + body);
        assert(written.drop_first() =~= body);
        let opened = step(parted, QUOTE);
        assert(backslashes(0) =~= Seq::<u16>::empty());
        assert(opened.cur =~= Seq::<u16>::empty());
        lemma_run_quoted_body(arg, 0, opened);
        assert(opened.cur + backslashes(0) + arg =~= arg);
        assert(arg + backslashes(0) =~= arg);
    } else {
        assert forall|i: int| 0 <= i < arg.len() implies arg[i] != QUOTE && !is_blank(arg[i]) by {
            assert(!super::launch_quote::unit_requires_quoting(arg[i]));
        }
        lemma_run_plain(arg, parted);
        assert(backslashes(0) =~= Seq::<u16>::empty());
        assert(parted.cur + backslashes(parted.slashes) + arg =~= arg);
    }
}

/// The written arguments are read back one for one.
proof fn lemma_run_tail(args: Seq<Seq<u16>>, st: ParseState)
    requires
        !st.in_quotes,
    ensures
        !run(quoted_tail(args), st).in_quotes,
        settled(run(quoted_tail(args), st)) == settled(st) + args,
    decreases args.len(),
{
    if args.len() == 0 {
        assert(settled(st) + args =~= settled(st));
    } else {
        let init = args.drop_last();
        let piece = seq![SPACE] + quoted_arg(args.last());
        assert(quoted_tail(args) =~= quoted_tail(init) + piece);
        lemma_run_concat(quoted_tail(init), piece, st);
        lemma_run_tail(init, st);
        lemma_run_quoted_arg(args.last(), run(quoted_tail(init), st));
        assert((settled(st) + init).push(args.last()) =~= settled(st) + args);
    }
}

/// Behind a stretch without the code unit `unit`, the first one is the one
/// that follows the stretch.
pub proof fn lemma_first_unit(a: Seq<u16>, unit: u16, t: Seq<u16>)
    requires
        forall|i: int| 0 <= i < a.len() ==> a[i] != unit,
    ensures
        first_unit(a + seq![unit] + t, unit) == a.len(),
    decreases a.len(),
{
    if a.len() > 0 {
        assert((a + seq![unit] + t).drop_first() =~= a.drop_first() + seq![unit] + t);
        lemma_first_unit(a.drop_first(), unit, t);
    }
}

/// Behind a stretch without blanks, the first blank is the one that follows it.
proof fn lemma_first_blank(a: Seq<u16>, t: Seq<u16>)
    requires
        forall|i: int| 0 <= i < a.len() ==> !is_blank(a[i]),
        t.len() == 0 || is_blank(t[0]),
    ensures
        first_blank(a + t) == a.len(),
    decreases a.len(),
{
    if a.len() > 0 {
        assert((a + t).drop_first() =~= a.drop_first() + t);
        lemma_first_blank(a.drop_first(), t);
    } else {
        assert(a + t =~= t);
    }
}

/// The written arguments start with a space, where there are any.
proof fn lemma_tail_starts_blank(args: Seq<Seq<u16>>)
    ensures
        quoted_tail(args).len() == 0 || quoted_tail(args)[0] == SPACE,
    decreases args.len(),
{
    if args.len() > 0 {
        lemma_tail_starts_blank(args.drop_last());
    }
}

/// A quoted name without quotes of its own, and without a backslash at its
/// end, stands between its quotes unchanged.
proof fn lemma_plain_body(name: Seq<u16>, pending: nat)
    requires
        forall|i: int| 0 <= i < name.len() ==> name[i] != QUOTE,
        name.len() > 0 ==> name.last() != BACKSLASH,
        name.len() == 0 ==> pending == 0,
    ensures
        quoted_body(name, pending) == backslashes(pending) + name,
    decreases name.len(),
{
    if name.len() == 0 {
        assert(backslashes(0) + name =~= backslashes(0));
    } else if name[0] == BACKSLASH {
        let rest = name.drop_first();
        assert(rest.len() > 0 && rest.last() == name.last());
        lemma_plain_body(rest, pending + 1);
        assert(backslashes(pending + 1) + rest =~= backslashes(pending) + name);
    } else {
        let rest = name.drop_first();
        if rest.len() > 0 {
            assert(rest.last() == name.last());
        }
        lemma_plain_body(rest, 0);
        assert(backslashes(pending).push(name[0]) + (backslashes(0) + rest) =~= backslashes(
            pending,
        ) + name);
    }
}

/// Parsing the command line that was written for a command and its arguments
/// gives back the command as the program name and every argument as it was.
///
/// The arguments are free.  The command must hold no quote, and must not end
/// in a backslash where it has to be put in quotes: the program name is read
/// without regard to backslashes.
pub proof fn lemma_quoting_round_trip(cmd: Seq<u16>, args: Seq<Seq<u16>>)
    requires
        forall|i: int| 0 <= i < cmd.len() ==> cmd[i] != QUOTE,
        needs_quotes(cmd) && cmd.len() > 0 ==> cmd.last() != BACKSLASH,
    ensures
        parse_command_line(command_line(cmd, args)) == seq![cmd] + args,
{
    let line = command_line(cmd, args);
    let tail = quoted_tail(args);
    lemma_tail_starts_blank(args);
    let start = ParseState {
        args: seq![cmd],
        cur: Seq::empty(),
        in_arg: false,
        in_quotes: false,
        slashes: 0,
    };
    if needs_quotes(cmd) {
        lemma_plain_body(cmd, 0);
        assert(backslashes(0) + cmd =~= cmd);
        assert(line =~= seq![QUOTE] + cmd + seq![QUOTE] + tail);
        assert(line.skip(1) =~= cmd + seq![QUOTE] + tail);
        lemma_first_unit(cmd, QUOTE, tail);
        assert(line.skip(1).take(cmd.len() as int) =~= cmd);
        assert(line.skip(cmd.len() as int + 2) =~= tail);
    } else {
        assert forall|i: int| 0 <= i < cmd.len() implies !is_blank(cmd[i]) by {
            assert(!super::launch_quote::unit_requires_quoting(cmd[i]));
        }
        assert(line =~= cmd + tail);
        lemma_first_blank(cmd, tail);
        assert(line.take(cmd.len() as int) =~= cmd);
        assert(line.skip(cmd.len() as int) =~= tail);
        assert(line[0] == cmd[0]);
    }
    assert(program_name(line) == cmd);
    assert(behind_program_name(line) == tail);
    lemma_run_tail(args, start);
}

/// A string is free of NULs where its two halves are.
pub proof fn lemma_has_nul_concat(a: Seq<u16>, b: Seq<u16>)
    ensures
        has_nul(a + b) == (has_nul(a) || has_nul(b)),
{
    if has_nul(a + b) {
        let i = choose|i: int| 0 <= i < (a + b).len() && #[trigger] (a + b)[i] == NUL;
        if i < a.len() {
            assert(a[i] == NUL);
        } else {
            assert(b[i - a.len()] == NUL);
        }
    }
    if has_nul(a) {
        let i = choose|i: int| 0 <= i < a.len() && #[trigger] a[i] == NUL;
        assert((a + b)[i] == NUL);
    }
    if has_nul(b) {
        let i = choose|i: int| 0 <= i < b.len() && #[trigger] b[i] == NUL;
        assert((a + b)[i + a.len()] == NUL);
    }
}

/// Quoting brings no NUL into an argument.
proof fn lemma_quoted_body_no_nul(arg: Seq<u16>, pending: nat)
    requires
        !has_nul(arg),
    ensures
        !has_nul(quoted_body(arg, pending)),
    decreases arg.len(),
{
    if arg.len() > 0 {
        let rest = arg.drop_first();
        assert forall|i: int| 0 <= i < rest.len() implies #[trigger] rest[i] != NUL by {
            assert(arg[i + 1] != NUL);
        }
        assert(arg[0] != NUL);
        if arg[0] == BACKSLASH {
            lemma_quoted_body_no_nul(rest, pending + 1);
        } else if arg[0] == QUOTE {
            lemma_quoted_body_no_nul(rest, 0);
            lemma_has_nul_concat(
                backslashes(2 * pending + 1).push(QUOTE),
                quoted_body(rest, 0),
            );
        } else {
            lemma_quoted_body_no_nul(rest, 0);
            lemma_has_nul_concat(backslashes(pending).push(arg[0]), quoted_body(rest, 0));
        }
    }
}

/// A written argument holds no NUL where the argument held none.
proof fn lemma_quoted_arg_no_nul(arg: Seq<u16>)
    requires
        !has_nul(arg),
    ensures
        !has_nul(quoted_arg(arg)),
{
    if needs_quotes(arg) {
        lemma_quoted_body_no_nul(arg, 0);
        lemma_has_nul_concat(seq![QUOTE], quoted_body(arg, 0));
        lemma_has_nul_concat(seq![QUOTE] + quoted_body(arg, 0), seq![QUOTE]);
    }
}

/// The written arguments hold no NUL where the arguments held none.
proof fn lemma_quoted_tail_no_nul(args: Seq<Seq<u16>>)
    requires
        !any_has_nul(args),
    ensures
        !has_nul(quoted_tail(args)),
    decreases args.len(),
{
    if args.len() > 0 {
        let init = args.drop_last();
        assert forall|i: int| 0 <= i < init.len() implies !has_nul(#[trigger] init[i]) by {
            assert(!has_nul(args[i]));
        }
        assert(!has_nul(args[args.len() - 1]));
        lemma_quoted_tail_no_nul(init);
        lemma_quoted_arg_no_nul(args.last());
        lemma_has_nul_concat(quoted_tail(init), seq![SPACE]);
        lemma_has_nul_concat(quoted_tail(init) + seq![SPACE], quoted_arg(args.last()));
    }
}

/// A text without NUL is what is read of it once a NUL is put at its end.
pub proof fn lemma_text_before_nul(text: Seq<u16>)
    requires
        !has_nul(text),
    ensures
        text_before_nul(text.push(NUL)) == text,
{
    lemma_first_unit(text, NUL, Seq::empty());
    assert(text + seq![NUL] + Seq::<u16>::empty() =~= text.push(NUL));
    assert(text.push(NUL).take(text.len() as int) =~= text);
}

/// The buffer that is handed to the system, read up to its NUL and parsed,
/// gives back the command and the arguments it was written for, where none of
/// them holds a NUL.
pub proof fn lemma_terminated_line_round_trip(cmd: Seq<u16>, args: Seq<Seq<u16>>)
    requires
        !has_nul(cmd),
        !any_has_nul(args),
        forall|i: int| 0 <= i < cmd.len() ==> cmd[i] != QUOTE,
        needs_quotes(cmd) && cmd.len() > 0 ==> cmd.last() != BACKSLASH,
    ensures
        text_before_nul(command_line(cmd, args).push(NUL)) == command_line(cmd, args),
        parse_command_line(text_before_nul(command_line(cmd, args).push(NUL))) == seq![cmd] + args,
{
    lemma_quoted_arg_no_nul(cmd);
    lemma_quoted_tail_no_nul(args);
    lemma_has_nul_concat(quoted_arg(cmd), quoted_tail(args));
    lemma_text_before_nul(command_line(cmd, args));
    lemma_quoting_round_trip(cmd, args);
}

} // verus!
