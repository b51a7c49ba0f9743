//! Command-line argument parsing: one flag and a list of input paths.

use crate::textutil::str_eq;
use vstd::prelude::*;
use vstd::string::*;

verus! {

/// Parsed command line: whether the decorative gradient starts enabled,
/// and the document or directory paths to open.
#[derive(Debug, PartialEq, Eq)]
pub struct CliArgs {
    pub enable_beeline: bool,
    pub inputs: Vec<String>,
}

/// The non-flag arguments from position `i` on.
pub open spec fn inputs_from(args: Seq<Seq<char>>, i: int) -> Seq<Seq<char>>
    decreases args.len() - i,
{
    if i < 0 || i >= args.len() {
        Seq::empty()
    } else {
        (if args[i] == "--no-beeline"@ {
            Seq::empty()
        } else {
            seq![args[i]]
        }) + inputs_from(args, i + 1)
    }
}

/// Parse the argument list (program name first). Every argument but the
/// gradient-disabling flag is an input path; with no input at all the
/// usage line is returned as the error.
#[verifier::loop_isolation(false)]
pub fn parse_args(args: &Vec<String>) -> (r: Result<CliArgs, String>)
    ensures
        inputs_from(args@.map_values(|s: String| s@), 1).len() == 0 ==> (r matches Err(e) && e@
            == "Usage: mdr [--no-beeline] <path-to-markdown> [more paths or directories]"@),
        inputs_from(args@.map_values(|s: String| s@), 1).len() > 0 ==> (r matches Ok(c) && {
            &&& c.inputs.deep_view() == inputs_from(args@.map_values(|s: String| s@), 1)
            &&& c.enable_beeline == !(exists|i: int|
                1 <= i < args@.len() && (#[trigger] args@[i])@ == "--no-beeline"@)
        }),
{
    let ghost argv = args@.map_values(|s: String| s@);
    let mut enable_beeline = true;
    let mut inputs: Vec<String> = Vec::new();
    let mut i: usize = 1;
    while i < args.len()
        invariant
            1 <= i <= args@.len() || (args@.len() == 0 && i == 1),
            argv == args@.map_values(|s: String| s@),
            inputs.deep_view() + inputs_from(argv, i as int) == inputs_from(argv, 1),
            enable_beeline == !(exists|j: int|
                1 <= j < i && #[trigger] argv[j] == "--no-beeline"@),
        decreases args@.len() - i,
    {
        let arg = &args[i];
        if str_eq(arg.as_str(), "--no-beeline") {
            enable_beeline = false;
            proof {
                assert(argv[i as int] == "--no-beeline"@);
            }
        } else {
            inputs.push(arg.clone());
        }
        proof {
            assert(inputs.deep_view() + inputs_from(argv, i + 1) =~= inputs_from(argv, 1));
        }
        i = i + 1;
    }
    proof {
        assert forall|j: int| 0 <= j < args@.len() implies argv[j] == (#[trigger] args@[j])@ by {}
        if exists|j: int| 1 <= j < args@.len() && #[trigger] argv[j] == "--no-beeline"@ {
            let j = choose|j: int| 1 <= j < args@.len() && #[trigger] argv[j] == "--no-beeline"@;
            assert((args@[j])@ == "--no-beeline"@);
        }
        if exists|j: int| 1 <= j < args@.len() && (#[trigger] args@[j])@ == "--no-beeline"@ {
            let j = choose|j: int|
                1 <= j < args@.len() && (#[trigger] args@[j])@ == "--no-beeline"@;
            assert(argv[j] == "--no-beeline"@);
        }
    }
    if inputs.len() == 0 {
        return Err(
            "Usage: mdr [--no-beeline] <path-to-markdown> [more paths or directories]".to_owned(),
        );
    }
    Ok(CliArgs { enable_beeline, inputs })
}

} // verus!
