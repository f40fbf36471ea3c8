use vstd::prelude::*;

use crate::text::chars_of;

verus! {

/// How one character of a value is written inside a single-quoted
/// PowerShell string: a single quote is doubled, anything else stays.
pub open spec fn quoted_char(c: char) -> Seq<char> {
    if c == '\'' {
        seq!['\'', '\'']
    } else {
        seq![c]
    }
}

/// `s` with every single quote doubled.
pub open spec fn escape_single_quotes(s: Seq<char>) -> Seq<char>
    decreases s.len(),
{
    if s.len() == 0 {
        Seq::empty()
    } else {
        escape_single_quotes(s.drop_last()) + quoted_char(s.last())
    }
}

/// `s` as a single-quoted PowerShell string literal.
pub open spec fn spec_powershell_string(s: Seq<char>) -> Seq<char> {
    seq!['\''] + escape_single_quotes(s) + seq!['\'']
}

/// The PowerShell script that reads the arguments stored in the shortcut
/// at `shortcut` and writes them out.
pub open spec fn spec_shortcut_arguments_script(shortcut: Seq<char>) -> Seq<char> {
    "$shell = New-Object -ComObject WScript.Shell; $shortcut = $shell.CreateShortcut("@
        + spec_powershell_string(shortcut) + "); Write-Output $shortcut.Arguments"@
}

/// The PowerShell script that writes a shortcut at `shortcut` which starts
/// `exe` with `arguments` in `working_dir`, with the icon of `exe`.
pub open spec fn spec_create_shortcut_script(
    shortcut: Seq<char>,
    exe: Seq<char>,
    arguments: Seq<char>,
    working_dir: Seq<char>,
) -> Seq<char> {
    "$shell = New-Object -ComObject WScript.Shell; $shortcut = $shell.CreateShortcut("@
        + spec_powershell_string(shortcut) + "); $shortcut.TargetPath = "@
        + spec_powershell_string(exe) + "; $shortcut.Arguments = "@ + spec_powershell_string(
        arguments,
    ) + "; $shortcut.WorkingDirectory = "@ + spec_powershell_string(working_dir)
        + "; $shortcut.IconLocation = "@ + spec_powershell_string(exe) + "; $shortcut.Save()"@
}

/// `value` as a single-quoted PowerShell string literal.
pub fn powershell_string(value: &str) -> (r: String)
    ensures
        r@ == spec_powershell_string(value@),
{
    let chars = chars_of(value);
    let mut r = String::new();
    r.push('\'');
    let mut i: usize = 0;
    while i < chars.len()
        invariant
            i <= chars@.len(),
            chars@ == value@,
            r@ == seq!['\''] + escape_single_quotes(value@.take(i as int)),
        decreases chars@.len() - i,
    {
        let c = chars[i];
        if c == '\'' {
            r.push('\'');
            r.push('\'');
        } else {
            r.push(c);
        }
        assert(value@.take(i + 1).drop_last() =~= value@.take(i as int));
        assert(r@ =~= seq!['\''] + escape_single_quotes(value@.take(i + 1)));
        i += 1;
    }
    assert(value@.take(i as int) =~= value@);
    r.push('\'');
    r
}

/// The script that reads back the arguments of the shortcut at `shortcut`.
pub fn shortcut_arguments_script(shortcut: &str) -> (r: String)
    ensures
        r@ == spec_shortcut_arguments_script(shortcut@),
{
    let mut r = "$shell = New-Object -ComObject WScript.Shell; $shortcut = $shell.CreateShortcut(".to_owned();
    r.append(powershell_string(shortcut).as_str());
    r.append("); Write-Output $shortcut.Arguments");
    r
}

/// The script that creates the startup shortcut.
pub fn create_shortcut_script(
    shortcut: &str,
    exe: &str,
    arguments: &str,
    working_dir: &str,
) -> (r: String)
    ensures
        r@ == spec_create_shortcut_script(shortcut@, exe@, arguments@, working_dir@),
{
    let quoted_exe = powershell_string(exe);
    let mut r = "$shell = New-Object -ComObject WScript.Shell; $shortcut = $shell.CreateShortcut(".to_owned();
    r.append(powershell_string(shortcut).as_str());
    r.append("); $shortcut.TargetPath = ");
    r.append(quoted_exe.as_str());
    r.append("; $shortcut.Arguments = ");
    r.append(powershell_string(arguments).as_str());
    r.append("; $shortcut.WorkingDirectory = ");
    r.append(powershell_string(working_dir).as_str());
    r.append("; $shortcut.IconLocation = ");
    r.append(quoted_exe.as_str());
    r.append("; $shortcut.Save()");
    r
}

proof fn lemma_escape_len(s: Seq<char>)
    ensures
        escape_single_quotes(s).len() >= s.len(),
    decreases s.len(),
{
    if s.len() > 0 {
        lemma_escape_len(s.drop_last());
    }
}

/// Doubling single quotes loses nothing: different values give different
/// escaped texts.
pub proof fn lemma_escape_injective(a: Seq<char>, b: Seq<char>)
    requires
        escape_single_quotes(a) == escape_single_quotes(b),
    ensures
        a == b,
    decreases a.len(),
{
    lemma_escape_len(a);
    lemma_escape_len(b);
    if a.len() == 0 || b.len() == 0 {
        if a.len() > 0 {
            assert(escape_single_quotes(a).len() > 0);
        }
        if b.len() > 0 {
            assert(escape_single_quotes(b).len() > 0);
        }
        assert(a =~= b);
    } else {
        let ea = escape_single_quotes(a.drop_last());
        let eb = escape_single_quotes(b.drop_last());
        let e = escape_single_quotes(a);
        let qa = quoted_char(a.last());
        let qb = quoted_char(b.last());
        assert(e == ea + qa);
        assert(e == eb + qb);
        assert(e.last() == qa.last());
        assert(e.last() == qb.last());
        if a.last() == '\'' {
            assert(b.last() == '\'');
        } else {
            assert(b.last() != '\'');
        }
        assert(qa == qb);
        assert(ea =~= e.subrange(0, e.len() - qa.len()));
        assert(eb =~= e.subrange(0, e.len() - qb.len()));
        lemma_escape_injective(a.drop_last(), b.drop_last());
        assert(a =~= a.drop_last().push(a.last()));
        assert(b =~= b.drop_last().push(b.last()));
    }
}

/// Two values quote to the same literal text only if they are equal: the
/// quoting is injective. (Only the ASCII single quote is doubled, as before;
/// nothing is claimed of how PowerShell reads other quote characters.)
pub proof fn lemma_powershell_string_injective(a: Seq<char>, b: Seq<char>)
    requires
        spec_powershell_string(a) == spec_powershell_string(b),
    ensures
        a == b,
{
    let pa = spec_powershell_string(a);
    assert(escape_single_quotes(a) =~= pa.subrange(1, pa.len() - 1));
    assert(escape_single_quotes(b) =~= pa.subrange(1, pa.len() - 1));
    lemma_escape_injective(a, b);
}

} // verus!
