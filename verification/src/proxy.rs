//! The child vestige-mcp process: its arguments and the exit code passed on.

use vstd::prelude::*;
use crate::export::strings_view;

verus! {

/// `--data-dir <dir>` when a data directory is given, then the forwarded arguments.
pub open spec fn mcp_args_spec(data_dir: Option<Seq<char>>, forwarded: Seq<Seq<char>>) -> Seq<
    Seq<char>,
> {
    match data_dir {
        Some(d) => seq!["--data-dir"@, d] + forwarded,
        None => forwarded,
    }
}

/// Arguments for vestige-mcp: `--data-dir <dir>` first when a data directory
/// is given, then the forwarded arguments.
pub fn mcp_args(data_dir: Option<&str>, vestige_args: &Vec<String>) -> (r: Vec<String>)
    ensures
        strings_view(r@) == mcp_args_spec(
            match data_dir {
                Some(d) => Some(d@),
                None => None,
            },
            strings_view(vestige_args@),
        ),
{
    let mut r: Vec<String> = Vec::new();
    match data_dir {
        Some(d) => {
            r.push("--data-dir".to_string());
            r.push(d.to_string());
        },
        None => {},
    }
    let ghost head = strings_view(r@);
    let mut i: usize = 0;
    while i < vestige_args.len()
        invariant
            i <= vestige_args.len(),
            strings_view(r@) == head + strings_view(vestige_args@).take(i as int),
        decreases vestige_args.len() - i,
    {
        let ghost prev = r@;
        let c = vestige_args[i].clone();
        r.push(c);
        assert(strings_view(r@) =~= strings_view(prev).push(vestige_args@[i as int]@));
        assert(strings_view(vestige_args@).take(i + 1) =~= strings_view(vestige_args@).take(
            i as int,
        ).push(vestige_args@[i as int]@));
        assert(strings_view(r@) =~= head + strings_view(vestige_args@).take(i + 1));
        i = i + 1;
    }
    assert(strings_view(vestige_args@).take(vestige_args.len() as int) =~= strings_view(
        vestige_args@,
    ));
    proof {
        match data_dir {
            Some(d) => {
                assert(head =~= seq!["--data-dir"@, d@]);
            },
            None => {
                assert(head =~= Seq::<Seq<char>>::empty());
                assert(head + strings_view(vestige_args@) =~= strings_view(vestige_args@));
            },
        }
    }
    r
}

/// How waiting for the child ended.
#[derive(Clone, Copy, Debug)]
pub enum ChildExit {
    /// The child was killed by this signal.
    Signaled(i32),
    /// The child exited, with this code when it has one.
    Exited(Option<i32>),
    /// Waiting for the child failed.
    WaitFailed,
}

/// The exit code to pass on: `128 + signal` for a signalled child, the
/// child's own code (low byte; 1 when it has none), and 1 when waiting failed.
pub open spec fn exit_code_spec(e: ChildExit) -> u8 {
    match e {
        ChildExit::Signaled(sig) => (128 + (sig as u8)) as u8,
        ChildExit::Exited(code) => match code {
            Some(c) => c as u8,
            None => 1,
        },
        ChildExit::WaitFailed => 1,
    }
}

/// The exit code to pass on for how the child ended.
pub fn exit_code(e: ChildExit) -> (r: u8)
    requires
        e matches ChildExit::Signaled(sig) ==> (sig as u8) < 128,
    ensures
        r == exit_code_spec(e),
{
    match e {
        ChildExit::Signaled(sig) => {
            let low = #[verifier::truncate] (sig as u8);
            128 + low
        },
        ChildExit::Exited(code) => match code {
            Some(c) => #[verifier::truncate] (c as u8),
            None => 1,
        },
        ChildExit::WaitFailed => 1,
    }
}

// ---------------------------------------------------------------------------
// Laws
// ---------------------------------------------------------------------------

/// With a data directory, the child's arguments are exactly `--data-dir`, the
/// directory, then every forwarded argument in order, however many there are
/// (none included); without one, they are the forwarded arguments alone.
pub proof fn law_mcp_args_data_dir_first(d: Seq<char>, forwarded: Seq<Seq<char>>)
    ensures
        mcp_args_spec(Some(d), forwarded).len() == forwarded.len() + 2,
        mcp_args_spec(Some(d), forwarded)[0] == "--data-dir"@,
        mcp_args_spec(Some(d), forwarded)[1] == d,
        forall|i: int|
            0 <= i < forwarded.len() ==> #[trigger] mcp_args_spec(Some(d), forwarded)[i + 2]
                == forwarded[i],
        mcp_args_spec(None, forwarded) == forwarded,
{
}

/// The wrapper passes on the child's exit status: a code from 0 to 255 is
/// passed on as it is (so a failing child is never reported as a success), a
/// child killed by signal `s` gives `128 + s`, and a child without a code or
/// a failed wait gives 1.
pub proof fn law_exit_code_passed_on(c: i32, sig: i32)
    ensures
        0 <= c <= 255 ==> exit_code_spec(ChildExit::Exited(Some(c))) == c,
        1 <= c <= 255 ==> exit_code_spec(ChildExit::Exited(Some(c))) != 0,
        0 <= sig < 128 ==> exit_code_spec(ChildExit::Signaled(sig)) == 128 + sig,
        exit_code_spec(ChildExit::Exited(None)) == 1,
        exit_code_spec(ChildExit::WaitFailed) == 1,
{
}

} // verus!
