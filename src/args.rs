use vstd::prelude::*;

verus! {

/// The two positional arguments: the source root and the destination root.
#[derive(Clone, Debug)]
pub struct Arguments {
    pub src_path: String,
    pub dest_path: String,
}

/// Reads the source and destination roots from the command line `args`, whose first item is
/// the program name. `None` when either root is missing; further items are ignored.
pub fn parse_args(args: &[String]) -> (r: Option<Arguments>)
    ensures
        r is None <==> args@.len() < 3,
        r matches Some(a) ==> a.src_path@ == args@[1]@ && a.dest_path@ == args@[2]@,
{
    if args.len() < 3 {
        return None;
    }
    let src_path = args[1].clone();
    let dest_path = args[2].clone();
    Some(Arguments { src_path, dest_path })
}

} // verus!
