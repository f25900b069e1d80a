use vstd::prelude::*;
use vstd::string::StrSliceExecFns;

verus! {

/// No character of `s` is the NUL character. The replacement call's ABI
/// carries each argument as a NUL-terminated C string, so an embedded NUL
/// cannot be marshaled faithfully.
pub open spec fn nul_free(s: Seq<char>) -> bool {
    forall|i: int| 0 <= i < s.len() ==> s[i] as int != 0
}

/// Every string of `ss` is free of NUL characters.
pub open spec fn all_nul_free(ss: Seq<Seq<char>>) -> bool {
    forall|i: int| 0 <= i < ss.len() ==> nul_free(ss[i])
}

/// The argument vector the replacement call expects: the program name
/// itself first, then each command argument in order, nothing dropped,
/// deduplicated or reordered. The terminating sentinel (a null pointer)
/// belongs to the C calling convention and is appended at the foreign call.
pub open spec fn argv_spec(name: Seq<char>, args: Seq<Seq<char>>) -> Seq<Seq<char>> {
    seq![name] + args
}

/// Whether `s` is free of embedded NUL characters.
pub fn is_nul_free(s: &str) -> (r: bool)
    ensures
        r == nul_free(s@),
{
    let n: usize = s.unicode_len();
    let mut i: usize = 0;
    while i < n
        invariant
            i <= n,
            n == s@.len(),
            forall|k: int| 0 <= k < i ==> s@[k] as int != 0,
        decreases n - i,
    {
        let c: char = s.get_char(i);
        if c as u32 == 0 {
            return false;
        }
        i += 1;
    }
    true
}

/// Marshal a program name and its arguments into the argument vector of the
/// replacement call. Succeeds exactly when every string is NUL-free, and
/// then yields exactly `argv_spec`: the name, then the arguments in order.
/// An embedded NUL is refused outright rather than truncated or dropped.
pub fn marshal_argv(program_name: &String, command_args: &Vec<String>) -> (r: Option<Vec<String>>)
    ensures
        r is Some <==> nul_free(program_name@) && all_nul_free(command_args.deep_view()),
        r matches Some(v) ==> v.deep_view() == argv_spec(
            program_name@,
            command_args.deep_view(),
        ),
{
    let ghost model = command_args.deep_view();
    if !is_nul_free(program_name.as_str()) {
        return None;
    }
    let mut argv: Vec<String> = Vec::new();
    argv.push(program_name.clone());
    proof {
        assert(argv.deep_view() =~= seq![program_name@]);
    }
    let mut i: usize = 0;
    while i < command_args.len()
        invariant
            i <= command_args.len(),
            model == command_args.deep_view(),
            forall|k: int| 0 <= k < i ==> nul_free(model[k]),
            argv.deep_view() =~= seq![program_name@] + model.subrange(0, i as int),
        decreases command_args.len() - i,
    {
        if !is_nul_free(command_args[i].as_str()) {
            proof {
                assert(command_args@[i as int]@ == model[i as int]);
                assert(!nul_free(model[i as int]));
            }
            return None;
        }
        let ghost prev = argv.deep_view();
        argv.push(command_args[i].clone());
        proof {
            assert(command_args@[i as int]@ == model[i as int]);
            assert(argv.deep_view() =~= prev.push(model[i as int]));
            assert((seq![program_name@] + model.subrange(0, i + 1)) =~= (seq![program_name@]
                + model.subrange(0, i as int)).push(model[i as int]));
            assert(prev == seq![program_name@] + model.subrange(0, i as int));
        }
        i += 1;
    }
    proof {
        assert(model.subrange(0, model.len() as int) =~= model);
        assert(argv.deep_view() =~= argv_spec(program_name@, model));
    }
    Some(argv)
}

} // verus!
