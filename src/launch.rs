use vstd::prelude::*;

use crate::error::Error;
use crate::splitter::{parse_input, pairs_view, split_model, tokens_view};

verus! {

/// Some variable of `ps` has an empty name.
pub open spec fn has_empty_key(ps: Seq<(Seq<char>, Seq<char>)>) -> bool {
    exists|j: int| 0 <= j < ps.len() && (#[trigger] ps[j]).0.len() == 0
}

/// Checks the variables to be set for a command: fails with
/// `Error::EmptyKey` exactly when one of them has an empty name.
pub fn check_keys(envs: &[(&str, &str)]) -> (r: Result<(), Error>)
    ensures
        r == (if has_empty_key(pairs_view(envs@)) {
            Err(Error::EmptyKey)
        } else {
            Ok(())
        }),
{
    let ghost ps = pairs_view(envs@);
    let mut i: usize = 0;
    while i < envs.len()
        invariant
            ps == pairs_view(envs@),
            i <= envs@.len(),
            forall|j: int| 0 <= j < i ==> (#[trigger] ps[j]).0.len() != 0,
        decreases envs@.len() - i,
    {
        if envs[i].0.is_empty() {
            assert(ps[i as int].0.len() == 0);
            return Err(Error::EmptyKey);
        }
        i = i + 1;
    }
    Ok(())
}

/// What to do with a command line.
#[derive(Debug, Clone, PartialEq, Eq)]
pub enum Invocation<'a> {
    /// No variables were given: show how the tool is used.
    Usage,
    /// Run `cmd` with `cmd_args`, with `envs` added to its environment.
    Launch { cmd: &'a str, cmd_args: Vec<&'a str>, envs: Vec<(&'a str, &'a str)> },
}

/// Decides what a command line asks for. With no leading `KEY=VALUE` token it
/// asks for the usage text; with only such tokens it fails with
/// `Error::NoCommand`; otherwise the first other token is the command, the
/// tokens after it are its arguments, and the pairs are its variables.
pub fn plan_invocation<'a>(args: &[&'a str]) -> (r: Result<Invocation<'a>, Error>)
    ensures
        ({
            let ts = tokens_view(args@);
            let (pairs, n) = split_model(ts);
            &&& n == 0 ==> r == Ok::<Invocation<'a>, Error>(Invocation::Usage)
            &&& 0 < n && n >= ts.len() ==> r == Err::<Invocation<'a>, Error>(Error::NoCommand)
            &&& 0 < n < ts.len() ==> (r matches Ok(Invocation::Launch { cmd, cmd_args, envs }) && {
                &&& cmd@ == ts[n as int]
                &&& tokens_view(cmd_args@) == ts.skip(n as int + 1)
                &&& pairs_view(envs@) == pairs
            })
        }),
{
    let (envs, idx) = parse_input(args);
    if idx == 0 {
        return Ok(Invocation::Usage);
    }
    if idx >= args.len() {
        return Err(Error::NoCommand);
    }
    let cmd = args[idx];
    let mut cmd_args: Vec<&'a str> = Vec::new();
    let mut i: usize = idx + 1;
    while i < args.len()
        invariant
            idx < i <= args@.len(),
            cmd_args@ =~= args@.subrange(idx + 1, i as int),
        decreases args@.len() - i,
    {
        cmd_args.push(args[i]);
        i = i + 1;
    }
    assert(tokens_view(cmd_args@) =~= tokens_view(args@).skip(idx + 1));
    Ok(Invocation::Launch { cmd, cmd_args, envs })
}

} // verus!
