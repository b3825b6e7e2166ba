use vstd::prelude::*;
use vstd::string::*;

verus! {

/// The arguments of the package tool that install a requirements file.
pub fn install(requirements: &str) -> (r: Vec<String>)
    ensures
        r.deep_view() == seq!["pip"@, "install"@, "-r"@, requirements@],
{
    let mut args: Vec<String> = Vec::new();
    args.push(String::from_str("pip"));
    args.push(String::from_str("install"));
    args.push(String::from_str("-r"));
    args.push(String::from_str(requirements));
    assert(args.deep_view() =~= seq!["pip"@, "install"@, "-r"@, requirements@]);
    args
}

/// The arguments of the package tool that install the project under test in editable mode.
pub fn develop() -> (r: Vec<String>)
    ensures
        r.deep_view() == seq!["pip"@, "install"@, "-e"@, "."@],
{
    let mut args: Vec<String> = Vec::new();
    args.push(String::from_str("pip"));
    args.push(String::from_str("install"));
    args.push(String::from_str("-e"));
    args.push(String::from_str("."));
    assert(args.deep_view() =~= seq!["pip"@, "install"@, "-e"@, "."@]);
    args
}

/// The arguments of the package tool that run `command`, on `testdir` when given.
pub fn run(command: &str, testdir: Option<&str>) -> (r: Vec<String>)
    ensures
        r.deep_view() == match testdir {
            Some(d) => seq!["run"@, command@, d@],
            None => seq!["run"@, command@],
        },
{
    let mut args: Vec<String> = Vec::new();
    args.push(String::from_str("run"));
    args.push(String::from_str(command));
    match testdir {
        Some(d) => {
            args.push(String::from_str(d));
            assert(args.deep_view() =~= seq!["run"@, command@, d@]);
        },
        None => {
            assert(args.deep_view() =~= seq!["run"@, command@]);
        },
    }
    args
}

} // verus!
