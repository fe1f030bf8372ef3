//! Arguments of `co workflow check`.

use vstd::prelude::*;
use crate::text::{chars_of, owned, str_eq, texts};

verus! {

/// `check` alone checks every workflow; `check FILE` checks one file, which
/// must not look like an option.
pub open spec fn workflow_args_result(args: Seq<Seq<char>>) -> Result<Option<Seq<char>>, Seq<char>> {
    if args.len() == 1 && args[0] == "check"@ {
        Ok(None)
    } else if args.len() == 2 && args[0] == "check"@ && !(args[1].len() > 0 && args[1][0] == '-') {
        Ok(Some(args[1]))
    } else {
        Err("usage: co workflow check [FILE]"@)
    }
}

pub fn parse_workflow_args(args: &[String]) -> (r: Result<Option<String>, String>)
    ensures
        match r {
            Ok(None) => workflow_args_result(texts(args@)) == Ok::<Option<Seq<char>>, Seq<char>>(
                None,
            ),
            Ok(Some(file)) => workflow_args_result(texts(args@)) == Ok::<
                Option<Seq<char>>,
                Seq<char>,
            >(Some(file@)),
            Err(e) => workflow_args_result(texts(args@)) == Err::<Option<Seq<char>>, Seq<char>>(
                e@,
            ),
        },
{
    assert(forall|i: int| 0 <= i < args.len() ==> texts(args@)[i] == (#[trigger] args@[i])@);
    if args.len() == 1 && str_eq(args[0].as_str(), "check") {
        Ok(None)
    } else if args.len() == 2 && str_eq(args[0].as_str(), "check") && {
        let v = chars_of(args[1].as_str());
        !(v.len() > 0 && v[0] == '-')
    } {
        Ok(Some(args[1].clone()))
    } else {
        Err(owned("usage: co workflow check [FILE]"))
    }
}

} // verus!
