//! Windows Argument Quoting Rules
//!
//! A Windows process receives its arguments as one string, which the program
//! takes apart again.  This module writes that string so that the parsing
//! rules give back exactly the arguments that went in, and writes the
//! environment block that goes with it.  Strings are sequences of UTF-16 code
//! units.
//!
//! Note that the command line also holds the command name that is
//! traditionally passed as argument 0.

use super::environ::{
    any_pair_has_nul, env_block, env_entries, env_entry, key_le, lemma_insert_at, lowered_key,
    raised_key, sort_key, sort_pairs, text_before_or_equal, unique_ignoring_case, upper_key,
    EnvPair,
};
use super::conv::append_units;
use crate::runtime::error::SandboxError;
use vstd::prelude::*;
use vstd::string::StringExecFns;

verus! {

pub const NUL: u16 = 0;

pub const TAB: u16 = 0x09;

pub const NEWLINE: u16 = 0x0a;

pub const VERTICAL_TAB: u16 = 0x0b;

pub const SPACE: u16 = 0x20;

pub const QUOTE: u16 = 0x22;

pub const EQUALS: u16 = 0x3d;

pub const BACKSLASH: u16 = 0x5c;

/// True where a code unit forces the argument that holds it into quotes.
pub open spec fn unit_requires_quoting(b: u16) -> bool {
    b == SPACE || b == TAB || b == NEWLINE || b == VERTICAL_TAB || b == QUOTE
}

/// True where an argument cannot be written verbatim: it is empty, or holds
/// white space or a quote.
pub open spec fn needs_quotes(val: Seq<u16>) -> bool {
    val.len() == 0 || exists|i: int| 0 <= i < val.len() && unit_requires_quoting(#[trigger] val[i])
}

/// True where a string holds a NUL, which would end it early.
pub open spec fn has_nul(val: Seq<u16>) -> bool {
    exists|i: int| 0 <= i < val.len() && #[trigger] val[i] == NUL
}

/// A run of `n` backslashes.
pub open spec fn backslashes(n: nat) -> Seq<u16> {
    Seq::new(n, |i: int| BACKSLASH)
}

/// What stands between the quotes of a quoted argument, for the part `arg` of
/// it that is still to be written and a run of `pending` backslashes read
/// just before it.  A run before a quote is doubled and the quote escaped; a
/// run at the end is doubled, so that the closing quote stays a delimiter; any
/// other run is written as it is.
pub open spec fn quoted_body(arg: Seq<u16>, pending: nat) -> Seq<u16>
    decreases arg.len(),
{
    if arg.len() == 0 {
        backslashes(2 * pending)
    } else if arg[0] == BACKSLASH {
        quoted_body(arg.drop_first(), pending + 1)
    } else if arg[0] == QUOTE {
        backslashes(2 * pending + 1).push(QUOTE) + quoted_body(arg.drop_first(), 0)
    } else {
        backslashes(pending).push(arg[0]) + quoted_body(arg.drop_first(), 0)
    }
}

/// One argument as it stands in the command line.
pub open spec fn quoted_arg(arg: Seq<u16>) -> Seq<u16> {
    if needs_quotes(arg) {
        seq![QUOTE] + quoted_body(arg, 0) + seq![QUOTE]
    } else {
        arg
    }
}

/// The arguments behind the command, each after one space.
pub open spec fn quoted_tail(args: Seq<Seq<u16>>) -> Seq<u16>
    decreases args.len(),
{
    if args.len() == 0 {
        Seq::empty()
    } else {
        quoted_tail(args.drop_last()) + seq![SPACE] + quoted_arg(args.last())
    }
}

/// The command line for a command and its arguments, without the terminator.
pub open spec fn command_line(cmd: Seq<u16>, args: Seq<Seq<u16>>) -> Seq<u16> {
    quoted_arg(cmd) + quoted_tail(args)
}

/// True where some string of the list holds a NUL.
pub open spec fn any_has_nul(args: Seq<Seq<u16>>) -> bool {
    exists|i: int| 0 <= i < args.len() && has_nul(#[trigger] args[i])
}

/// The error for a value that holds a NUL.
pub open spec fn is_nul_error(e: SandboxError) -> bool {
    e matches SandboxError::JailSetup(m) && m@ == "nul byte found in value"@
}

pub fn char_requires_quoting(b: u16) -> (r: bool)
    ensures
        r == unit_requires_quoting(b),
{
    b == SPACE || b == TAB || b == NEWLINE || b == VERTICAL_TAB || b == QUOTE
}

/// Tells whether an argument has to be put in quotes.
pub fn requires_quoting(val: &Vec<u16>) -> (r: bool)
    ensures
        r == needs_quotes(val@),
{
    if val.len() == 0 {
        return true;
    }
    let mut i: usize = 0;
    while i < val.len()
        invariant
            i <= val@.len(),
            forall|k: int| 0 <= k < i ==> !unit_requires_quoting(#[trigger] val@[k]),
        decreases val@.len() - i,
    {
        if char_requires_quoting(val[i]) {
            return true;
        }
        i += 1;
    }
    false
}

/// Hands the value back where it holds no NUL, and refuses it otherwise.
pub fn enforce_no_zero(val: &Vec<u16>) -> (r: Result<&Vec<u16>, SandboxError>)
    ensures
        has_nul(val@) <==> r is Err,
        r matches Ok(v) ==> v == val,
        r matches Err(e) ==> is_nul_error(e),
{
    let mut i: usize = 0;
    while i < val.len()
        invariant
            i <= val@.len(),
            forall|k: int| 0 <= k < i ==> #[trigger] val@[k] != NUL,
        decreases val@.len() - i,
    {
        if val[i] == NUL {
            return Err(SandboxError::JailSetup(String::from_str("nul byte found in value")));
        }
        i += 1;
    }
    Ok(val)
}

/// Appends a run of `n` backslashes.
fn push_backslashes(cmd: &mut Vec<u16>, n: usize)
    ensures
        final(cmd)@ == old(cmd)@ + backslashes(n as nat),
{
    let mut k: usize = 0;
    while k < n
        invariant
            k <= n,
            cmd@ == old(cmd)@ + backslashes(k as nat),
        decreases n - k,
    {
        cmd.push(BACKSLASH);
        k += 1;
        assert(cmd@ =~= old(cmd)@ + backslashes(k as nat));
    }
    assert(cmd@ =~= old(cmd)@ + backslashes(n as nat));
}

/// Two runs of backslashes behind one another make one run.
proof fn lemma_backslashes_add(a: nat, b: nat)
    ensures
        backslashes(a) + backslashes(b) == backslashes(a + b),
{
    assert(backslashes(a) + backslashes(b) =~= backslashes(a + b));
}

/// Appends one argument to the command line, in quotes where it needs them.
/// An argument that holds a NUL is refused, and the line stays as it was.
fn append_arg(cmd: &mut Vec<u16>, arg: &Vec<u16>) -> (r: Result<(), SandboxError>)
    ensures
        has_nul(arg@) <==> r is Err,
        r is Ok ==> final(cmd)@ == old(cmd)@ + quoted_arg(arg@),
        r matches Err(e) ==> is_nul_error(e) && final(cmd)@ == old(cmd)@,
{
    let arg = enforce_no_zero(arg)?;
    if !requires_quoting(arg) {
        let mut i: usize = 0;
        while i < arg.len()
            invariant
                i <= arg@.len(),
                cmd@ == old(cmd)@ + arg@.take(i as int),
            decreases arg@.len() - i,
        {
            cmd.push(arg[i]);
            i += 1;
            assert(cmd@ =~= old(cmd)@ + arg@.take(i as int));
        }
        assert(arg@.take(arg@.len() as int) =~= arg@);
        return Ok(());
    }
    // Perform quoting.
    cmd.push(QUOTE);
    let ghost start = cmd@;
    let ghost mut done: Seq<u16> = Seq::empty();
    assert(arg@.skip(0) =~= arg@);
    assert(done + quoted_body(arg@, 0) =~= quoted_body(arg@, 0));
    let mut backslash_count: usize = 0;
    let mut i: usize = 0;
    while i < arg.len()
        invariant
            i <= arg@.len(),
            backslash_count <= i,
            start == old(cmd)@.push(QUOTE),
            cmd@ == start + done,
            done + quoted_body(arg@.skip(i as int), backslash_count as nat) == quoted_body(
                arg@,
                0,
            ),
        decreases arg@.len() - i,
    {
        let ghost rest = arg@.skip(i as int);
        let ghost pending = backslash_count as nat;
        assert(rest.drop_first() =~= arg@.skip(i + 1));
        assert(rest[0] == arg@[i as int]);
        let c = arg[i];
        i += 1;
        if c == BACKSLASH {
            backslash_count += 1;
            assert(done + quoted_body(arg@.skip(i as int), backslash_count as nat) == quoted_body(
                arg@,
                0,
            ));
            continue ;
        }
        if c == QUOTE {
            // Escape all the backslashes, and add one for the escaped '"'.
            push_backslashes(cmd, backslash_count);
            push_backslashes(cmd, backslash_count);
            cmd.push(BACKSLASH);
            cmd.push(c);
            proof {
                lemma_backslashes_add(pending, pending);
                assert(backslashes(2 * pending).push(BACKSLASH) =~= backslashes(2 * pending + 1));
                let step = backslashes(2 * pending + 1).push(QUOTE);
                assert(cmd@ =~= start + (done + step));
                assert((done + step) + quoted_body(arg@.skip(i as int), 0) =~= done + (step
                    + quoted_body(arg@.skip(i as int), 0)));
                done = done + step;
            }
        } else {
            // Backslashes aren't special.
            push_backslashes(cmd, backslash_count);
            cmd.push(c);
            proof {
                let step = backslashes(pending).push(c);
                assert(cmd@ =~= start + (done + step));
                assert((done + step) + quoted_body(arg@.skip(i as int), 0) =~= done + (step
                    + quoted_body(arg@.skip(i as int), 0)));
                done = done + step;
            }
        }
        backslash_count = 0;
    }
    // Escape all the trailing backslashes.
    // Let the final '"' be still considered a meta-character.
    push_backslashes(cmd, backslash_count);
    push_backslashes(cmd, backslash_count);
    cmd.push(QUOTE);
    proof {
        lemma_backslashes_add(backslash_count as nat, backslash_count as nat);
        assert(arg@.skip(i as int).len() == 0);
        assert(cmd@ =~= old(cmd)@ + (seq![QUOTE] + quoted_body(arg@, 0) + seq![QUOTE]));
    }
    Ok(())
}

/// Quote the command and arguments into the argument parameter to the launch function.
///
/// The line is the command, then each argument after one space, each in quotes
/// where it needs them, and a NUL at the end.  A NUL inside the command or an
/// argument is refused.
pub fn quote_arguments(cmd: &Vec<u16>, args: &Vec<Vec<u16>>) -> (r: Result<Vec<u16>, SandboxError>)
    ensures
        (has_nul(cmd@) || any_has_nul(args.deep_view())) <==> r is Err,
        r matches Ok(line) ==> line@ == command_line(cmd@, args.deep_view()).push(NUL),
        r matches Err(e) ==> is_nul_error(e),
{
    let mut ret: Vec<u16> = Vec::new();
    append_arg(&mut ret, cmd)?;
    assert(ret@ =~= quoted_arg(cmd@));
    let mut i: usize = 0;
    while i < args.len()
        invariant
            i <= args@.len(),
            !has_nul(cmd@),
            forall|k: int| 0 <= k < i ==> !has_nul(#[trigger] args.deep_view()[k]),
            ret@ == command_line(cmd@, args.deep_view().take(i as int)),
        decreases args@.len() - i,
    {
        let ghost before = args.deep_view().take(i as int);
        ret.push(SPACE);
        assert(args.deep_view()[i as int] == args@[i as int]@);
        append_arg(&mut ret, &args[i])?;
        i += 1;
        proof {
            let now = args.deep_view().take(i as int);
            assert(now.drop_last() =~= before);
            assert(now.last() == args@[i - 1]@);
            assert(ret@ =~= command_line(cmd@, now));
        }
    }
    assert(args.deep_view().take(i as int) =~= args.deep_view());
    ret.push(NUL);  // NUL terminator
    Ok(ret)
}

/// The pairs that a list of places picks out of the environment.
pub open spec fn picked(pairs: Seq<EnvPair>, order: Seq<usize>) -> Seq<EnvPair> {
    Seq::new(order.len(), |j: int| pairs[order[j] as int])
}

/// The places of the variables in the order in which they go into the block:
/// by key, letter case set aside, and as they came where the keys are alike.
fn sorted_order(env: &Vec<(Vec<u16>, Vec<u16>)>) -> (order: Vec<usize>)
    ensures
        order@.len() == env@.len(),
        forall|j: int| 0 <= j < order@.len() ==> order@[j] < env@.len(),
        forall|k: usize| k < env@.len() ==> #[trigger] order@.contains(k),
        picked(env.deep_view(), order@) == sort_pairs(env.deep_view()),
{
    let ghost pairs = env.deep_view();
    let mut keys: Vec<String> = Vec::with_capacity(env.len());
    let mut n: usize = 0;
    while n < env.len()
        invariant
            n <= env@.len(),
            pairs == env.deep_view(),
            keys@.len() == n,
            forall|k: int| 0 <= k < n ==> (#[trigger] keys@[k])@ == sort_key(pairs[k].0),
        decreases env@.len() - n,
    {
        assert(pairs[n as int].0 == env@[n as int].0@);
        keys.push(lowered_key(&env[n].0));
        n += 1;
    }
    let mut order: Vec<usize> = Vec::with_capacity(env.len());
    let mut i: usize = 0;
    assert(pairs.take(0) =~= Seq::<EnvPair>::empty());
    assert(picked(pairs, order@) =~= sort_pairs(pairs.take(0)));
    while i < env.len()
        invariant
            i <= env@.len(),
            pairs == env.deep_view(),
            keys@.len() == env@.len(),
            forall|k: int| 0 <= k < keys@.len() ==> (#[trigger] keys@[k])@ == sort_key(pairs[k].0),
            order@.len() == i,
            forall|j: int| 0 <= j < order@.len() ==> order@[j] < i,
            forall|k: usize| k < i ==> #[trigger] order@.contains(k),
            picked(pairs, order@) == sort_pairs(pairs.take(i as int)),
        decreases env@.len() - i,
    {
        let ghost sorted = picked(pairs, order@);
        let mut at: usize = order.len();
        let mut found = false;
        while at > 0 && !found
            invariant
                at <= order@.len(),
                i < env@.len(),
                keys@.len() == env@.len(),
                forall|k: int|
                    0 <= k < keys@.len() ==> (#[trigger] keys@[k])@ == sort_key(pairs[k].0),
                forall|j: int| 0 <= j < order@.len() ==> order@[j] < i,
                sorted == picked(pairs, order@),
                forall|k: int| at <= k < sorted.len() ==> !key_le(#[trigger] sorted[k], pairs[i as int]),
                found ==> at > 0 && key_le(sorted[at - 1], pairs[i as int]),
            decreases at + (if found { 0int } else { 1int }),
        {
            let before = order[at - 1];
            if text_before_or_equal(keys[before].as_str(), keys[i].as_str()) {
                found = true;
            } else {
                at -= 1;
            }
        }
        let ghost old_order = order@;
        order.insert(at, i);
        proof {
            let x = pairs[i as int];
            if at > 0 && !found {
                assert(false);
            }
            lemma_insert_at(sorted, x, at as int);
            assert(picked(pairs, order@) =~= sorted.insert(at as int, x));
            assert(pairs.take(i + 1).drop_last() =~= pairs.take(i as int));
            assert(pairs.take(i + 1).last() == x);
            assert forall|k: usize| k < i + 1 implies #[trigger] order@.contains(k) by {
                if k == i {
                    assert(order@[at as int] == k);
                } else {
                    assert(old_order.contains(k));
                    let p = choose|p: int| 0 <= p < old_order.len() && old_order[p] == k;
                    if p < at {
                        assert(order@[p] == k);
                    } else {
                        assert(order@[p + 1] == k);
                    }
                }
            }
        }
        i += 1;
    }
    assert(pairs.take(i as int) =~= pairs);
    order
}

/// Turn the environment variables into the block that a new process is given.
///
/// The entries are sorted by key, letter case set aside, and written as
/// `KEY=VALUE` with a NUL behind each; one more NUL ends the block, and an empty
/// environment is two NULs.  A NUL inside a key or a value is refused.
/// Warning: callers must ensure that no key occurs twice; Windows requires it,
/// and this function does not look for it.  A key should hold no `=` but at its
/// start, as in `=C:`.
pub fn encode_env_strings(env: &Vec<(Vec<u16>, Vec<u16>)>) -> (r: Result<Vec<u16>, SandboxError>)
    ensures
        any_pair_has_nul(env.deep_view()) <==> r is Err,
        r matches Ok(block) ==> block@ == env_block(sort_pairs(env.deep_view())),
        r matches Err(e) ==> is_nul_error(e),
{
    let ghost pairs = env.deep_view();
    if env.len() == 0 {
        // An empty environment block is just the double-NUL termination.
        let mut block: Vec<u16> = Vec::new();
        block.push(NUL);
        block.push(NUL);
        assert(block@ =~= seq![NUL, NUL]);
        assert(sort_pairs(pairs).len() == 0);
        return Ok(block);
    }
    let order = sorted_order(env);
    let ghost sorted = sort_pairs(pairs);
    let mut block: Vec<u16> = Vec::new();
    let mut t: usize = 0;
    assert(sorted.take(0) =~= Seq::<EnvPair>::empty());
    while t < order.len()
        invariant
            t <= order@.len(),
            pairs == env.deep_view(),
            order@.len() == env@.len(),
            forall|j: int| 0 <= j < order@.len() ==> order@[j] < env@.len(),
            sorted == picked(pairs, order@),
            block@ == env_entries(sorted.take(t as int)),
            forall|j: int|
                0 <= j < t ==> !has_nul(pairs[(#[trigger] order@[j]) as int].0) && !has_nul(
                    pairs[order@[j] as int].1,
                ),
        decreases order@.len() - t,
    {
        let at = order[t];
        assert(pairs[at as int] == (env@[at as int].0@, env@[at as int].1@));
        let ghost start = block@;
        let k = match enforce_no_zero(&env[at].0) {
            Ok(k) => k,
            Err(e) => {
                assert(has_nul(pairs[at as int].0));
                return Err(e);
            },
        };
        let v = match enforce_no_zero(&env[at].1) {
            Ok(v) => v,
            Err(e) => {
                assert(has_nul(pairs[at as int].1));
                return Err(e);
            },
        };
        append_units(&mut block, k);
        block.push(EQUALS);
        append_units(&mut block, v);
        block.push(NUL);  // NUL terminator for this entry
        t += 1;
        proof {
            assert(sorted.take(t as int).drop_last() =~= sorted.take(t - 1));
            assert(sorted.take(t as int).last() == pairs[at as int]);
            assert(block@ =~= start + env_entry(pairs[at as int]));
        }
    }
    block.push(NUL);  // extra NUL terminator ends the block
    proof {
        assert(sorted.take(t as int) =~= sorted);
        assert(sorted.len() == env@.len());
        if any_pair_has_nul(pairs) {
            let bad = choose|i: int|
                0 <= i < pairs.len() && (has_nul((#[trigger] pairs[i]).0) || has_nul(pairs[i].1));
            assert(order@.contains(bad as usize));
            let j = choose|j: int| 0 <= j < order@.len() && order@[j] == bad as usize;
            assert(!has_nul(pairs[order@[j] as int].0));
            assert(false);
        }
    }
    Ok(block)
}

/// Looks through the environment for a NUL in a key or a value.
pub fn check_environment(env: &Vec<(Vec<u16>, Vec<u16>)>) -> (r: Result<(), SandboxError>)
    ensures
        any_pair_has_nul(env.deep_view()) <==> r is Err,
        r matches Err(e) ==> is_nul_error(e),
{
    let ghost pairs = env.deep_view();
    let mut i: usize = 0;
    while i < env.len()
        invariant
            i <= env@.len(),
            pairs == env.deep_view(),
            forall|k: int| 0 <= k < i ==> !has_nul((#[trigger] pairs[k]).0) && !has_nul(pairs[k].1),
        decreases env@.len() - i,
    {
        assert(pairs[i as int] == (env@[i as int].0@, env@[i as int].1@));
        match enforce_no_zero(&env[i].0) {
            Ok(_) => {},
            Err(e) => {
                assert(has_nul(pairs[i as int].0));
                return Err(e);
            },
        }
        match enforce_no_zero(&env[i].1) {
            Ok(_) => {},
            Err(e) => {
                assert(has_nul(pairs[i as int].1));
                return Err(e);
            },
        }
        i += 1;
    }
    Ok(())
}

/// The error for an environment that names a variable twice.
pub open spec fn is_twice_error(e: SandboxError) -> bool {
    e matches SandboxError::JailSetup(m) && m@ == "a variable is named twice"@
}

/// Looks through the environment for two variables of one key, letter case
/// set aside: Windows takes each variable once.
pub fn check_unique_keys(env: &Vec<(Vec<u16>, Vec<u16>)>) -> (r: Result<(), SandboxError>)
    ensures
        unique_ignoring_case(env.deep_view()) <==> r is Ok,
        r matches Err(e) ==> is_twice_error(e),
{
    let ghost pairs = env.deep_view();
    let mut keys: Vec<String> = Vec::with_capacity(env.len());
    let mut j: usize = 0;
    while j < env.len()
        invariant
            j <= env@.len(),
            pairs == env.deep_view(),
            keys@.len() == j,
            forall|k: int| 0 <= k < j ==> (#[trigger] keys@[k])@ == upper_key(pairs[k].0),
            forall|a: int, b: int| 0 <= a < b < j ==> upper_key(pairs[a].0) != upper_key(pairs[b].0),
        decreases env@.len() - j,
    {
        assert(pairs[j as int] == (env@[j as int].0@, env@[j as int].1@));
        let raised = raised_key(&env[j].0);
        let mut i: usize = 0;
        while i < j
            invariant
                i <= j < env@.len(),
                pairs == env.deep_view(),
                keys@.len() == j,
                raised@ == upper_key(pairs[j as int].0),
                forall|k: int| 0 <= k < j ==> (#[trigger] keys@[k])@ == upper_key(pairs[k].0),
                forall|a: int| 0 <= a < i ==> upper_key(pairs[a].0) != upper_key(pairs[j as int].0),
            decreases j - i,
        {
            if keys[i] == raised {
                assert(upper_key(pairs[i as int].0) == upper_key(pairs[j as int].0));
                return Err(SandboxError::JailSetup(String::from_str("a variable is named twice")));
            }
            i += 1;
        }
        keys.push(raised);
        j += 1;
    }
    Ok(())
}

} // verus!
