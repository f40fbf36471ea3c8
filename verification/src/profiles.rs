use vstd::prelude::*;

verus! {

/// The profile list as it is handed out: the stored profiles, or the
/// built-in ones while nothing is stored yet.
pub open spec fn spec_filled<P>(stored: Seq<P>, defaults: Seq<P>) -> Seq<P> {
    if stored.len() == 0 {
        defaults
    } else {
        stored
    }
}

/// Puts `defaults` into an empty profile list; a list that holds profiles
/// is kept as it is.
pub fn fill_with_defaults<P>(profiles: &mut Vec<P>, defaults: Vec<P>)
    ensures
        final(profiles)@ == spec_filled(old(profiles)@, defaults@),
{
    if profiles.len() == 0 {
        *profiles = defaults;
    }
}

/// The message given when an imported file holds no profile in any of the
/// accepted shapes.
pub open spec fn import_rejected_message() -> Seq<char> {
    "That JSON file does not look like a Colorify profile export."@
}

/// The profiles taken from an imported file, from what it was read as: an
/// export file with a profile list, else a bare list of profiles, else a
/// single profile; a file that is none of these is rejected.
pub open spec fn spec_imported_profiles<P>(
    as_export_file: Option<Seq<P>>,
    as_list: Option<Seq<P>>,
    as_single: Option<P>,
) -> Result<Seq<P>, Seq<char>> {
    match (as_export_file, as_list, as_single) {
        (Some(profiles), _, _) => Ok(profiles),
        (None, Some(profiles), _) => Ok(profiles),
        (None, None, Some(profile)) => Ok(seq![profile]),
        (None, None, None) => Err(import_rejected_message()),
    }
}

/// The profiles taken from an imported file, from the three ways of reading
/// it (`None` where the file is not of that shape).
pub fn imported_profiles<P>(
    as_export_file: Option<Vec<P>>,
    as_list: Option<Vec<P>>,
    as_single: Option<P>,
) -> (r: Result<Vec<P>, String>)
    ensures
        match (
            r,
            spec_imported_profiles(
                match as_export_file {
                    Some(v) => Some(v@),
                    None => None,
                },
                match as_list {
                    Some(v) => Some(v@),
                    None => None,
                },
                as_single,
            ),
        ) {
            (Ok(v), Ok(s)) => v@ == s,
            (Err(e), Err(m)) => e@ == m,
            _ => false,
        },
{
    match as_export_file {
        Some(profiles) => Ok(profiles),
        None => match as_list {
            Some(profiles) => Ok(profiles),
            None => match as_single {
                Some(profile) => Ok(vec![profile]),
                None => Err("That JSON file does not look like a Colorify profile export.".to_owned()),
            },
        },
    }
}

/// Filling is done once: a filled list is not filled again, so the list that
/// is handed out stays the same from one request to the next.
pub proof fn lemma_filled_idempotent<P>(stored: Seq<P>, defaults: Seq<P>)
    ensures
        spec_filled(spec_filled(stored, defaults), defaults) == spec_filled(stored, defaults),
{
}

/// An imported file's profiles are taken whole, in order: an export file
/// gives exactly its list, a bare list (when the file is no export file)
/// gives exactly that list, and a single profile gives a list of just it.
pub proof fn lemma_imported_profiles_keep_the_list<P>(
    file_list: Seq<P>,
    bare_list: Seq<P>,
    single: Option<P>,
    profile: P,
)
    ensures
        spec_imported_profiles(Some(file_list), Some(bare_list), single) == Ok::<
            Seq<P>,
            Seq<char>,
        >(file_list),
        spec_imported_profiles(None, Some(bare_list), single) == Ok::<Seq<P>, Seq<char>>(
            bare_list,
        ),
        spec_imported_profiles(None, Some(bare_list), single) matches Ok(v) && v.len()
            == bare_list.len() && forall|i: int| 0 <= i < v.len() ==> v[i] == bare_list[i],
        spec_imported_profiles(None, None, Some(profile)) matches Ok(v) && v.len() == 1 && v[0]
            == profile,
        spec_imported_profiles::<P>(None, None, None) is Err,
{
}

} // verus!
