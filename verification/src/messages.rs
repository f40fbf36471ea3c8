use vstd::prelude::*;

verus! {

/// The message shown after the data folder at `folder` was opened.
pub fn opened_message(folder: &str) -> (r: String)
    ensures
        r@ == "Opened "@ + folder@ + "."@,
{
    let mut r = "Opened ".to_owned();
    r.append(folder);
    r.append(".");
    r
}

/// The message shown after a profile was exported to `path`.
pub fn exported_message(path: &str) -> (r: String)
    ensures
        r@ == "Exported "@ + path@ + "."@,
{
    let mut r = "Exported ".to_owned();
    r.append(path);
    r.append(".");
    r
}

} // verus!
