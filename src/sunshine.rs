use vstd::prelude::*;
use vstd::string::StringExecFns;

verus! {

/// Arguments to the user service manager that apply `action` to the streaming service.
fn control(action: &str) -> (r: Vec<String>)
    ensures
        r@.len() == 3,
        r@[0]@ == "--user"@,
        r@[1]@ == action@,
        r@[2]@ == "sunshine"@,
{
    vec![String::from_str("--user"), String::from_str(action), String::from_str("sunshine")]
}

/// Arguments that start the streaming service.
pub fn start() -> (r: Vec<String>)
    ensures
        r@.len() == 3,
        r@[0]@ == "--user"@,
        r@[1]@ == "start"@,
        r@[2]@ == "sunshine"@,
{
    control("start")
}

/// Arguments that stop the streaming service.
pub fn stop() -> (r: Vec<String>)
    ensures
        r@.len() == 3,
        r@[0]@ == "--user"@,
        r@[1]@ == "stop"@,
        r@[2]@ == "sunshine"@,
{
    control("stop")
}

} // verus!
