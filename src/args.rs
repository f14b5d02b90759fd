//! The command-line options the plugin registers with the scheduler.
use vstd::prelude::*;

use crate::naming::{plugin_err, plugin_string, tagged};
use crate::text::push_char;

verus! {

/// One option of the plugin: its name, the placeholder of its value, its
/// help text, and whether it takes a value.
#[derive(Clone, Debug)]
pub struct SpankArg {
    pub name: String,
    pub value: String,
    pub usage: String,
    pub has_arg: bool,
}

/// The options given on the command line.
#[derive(Clone, Debug)]
pub struct PluginArgs {
    pub edf: Option<String>,
}

/// Appends an option to a list of options.
pub fn add_arg(v: Vec<SpankArg>, a: SpankArg) -> (r: Vec<SpankArg>)
    ensures
        r@ == v@.push(a),
{
    let mut v = v;
    v.push(a);
    v
}

/// The options the plugin registers: `--edf PATH`.
pub fn plugin_options() -> (r: Vec<SpankArg>)
    ensures
        r@.len() == 1,
        r@[0].name@ == "edf"@,
        r@[0].value@ == "PATH"@,
        r@[0].usage@ == "the path to the Environment Definition File to use."@,
        r@[0].has_arg,
{
    let opts: Vec<SpankArg> = Vec::new();
    add_arg(
        opts,
        SpankArg {
            name: String::from_str("edf"),
            value: String::from_str("PATH"),
            usage: String::from_str("the path to the Environment Definition File to use."),
            has_arg: true,
        },
    )
}

/// An option's help text as registered, with the plugin tag in front.
pub fn option_usage(a: &SpankArg) -> (r: String)
    ensures
        r@ == tagged(a.usage@),
{
    plugin_string(a.usage.as_str())
}

/// Takes the value of `--edf`; an empty value is refused.
pub fn set_arg_edf(args: &mut PluginArgs, value: String) -> (r: Result<(), String>)
    ensures
        value@.len() == 0 ==> (r matches Err(e) && e@ == tagged("--edf: argument required"@)
            && final(args).edf == old(args).edf),
        value@.len() > 0 ==> (r is Ok && final(args).edf == Some(value)),
{
    if value.unicode_len() == 0 {
        return plugin_err("--edf: argument required");
    }
    args.edf = Some(value);
    Ok(())
}

/// `s` followed by spaces up to `width` characters; unchanged where it is
/// that long already.
pub open spec fn pad_right(s: Seq<char>, width: nat) -> Seq<char> {
    if s.len() >= width {
        s
    } else {
        s + Seq::new((width - s.len()) as nat, |i: int| ' ')
    }
}

/// Pads `s` with spaces to `width` characters.
pub fn pad_to(s: &str, width: usize) -> (r: String)
    ensures
        r@ == pad_right(s@, width as nat),
{
    let mut r = String::from_str(s);
    let n = s.unicode_len();
    let mut k = n;
    while k < width
        invariant
            n == s@.len(),
            k >= n,
            n >= width ==> k == n,
            n < width ==> k <= width,
            r@ == s@ + Seq::new((k - n) as nat, |i: int| ' '),
        decreases width - k,
    {
        let ghost before = r@;
        push_char(&mut r, ' ');
        assert(r@ =~= s@ + Seq::new((k + 1 - n) as nat, |i: int| ' '));
        k = k + 1;
    }
    if n >= width {
        assert(Seq::new((k - n) as nat, |i: int| ' ') =~= Seq::<char>::empty());
        assert(r@ =~= s@);
    }
    r
}

/// The warning shown when `--edf` is used with a batch submission command
/// named `prog`.
pub open spec fn sbatch_warning_view(prog: Seq<char>) -> Seq<char> {
    "\n--------------------------------------------------------------------------------\n| Use of the \"--edf\" option for "@
        + pad_right("\""@ + prog + "\" is still considered experimental"@, 47)
        + "|\n| and could result in unexpected behavior.                                     |\n| Use of \"--edf\" is currently only recommended for the \"srun\" command.         |\n|                                                                              |\n| Please read carefully the Container Engine page on the CSCS Knowledge Base.  |\n--------------------------------------------------------------------------------\n"@
}

/// The warning for a batch submission command named `prog`.
pub fn sbatch_warning(prog: &str) -> (r: String)
    ensures
        r@ == sbatch_warning_view(prog@),
{
    let mut unpadded = String::from_str("\"");
    unpadded.append(prog);
    unpadded.append("\" is still considered experimental");
    let mut r = String::from_str(
        "\n--------------------------------------------------------------------------------\n| Use of the \"--edf\" option for ",
    );
    let padded = pad_to(unpadded.as_str(), 47);
    r.append(padded.as_str());
    r.append(
        "|\n| and could result in unexpected behavior.                                     |\n| Use of \"--edf\" is currently only recommended for the \"srun\" command.         |\n|                                                                              |\n| Please read carefully the Container Engine page on the CSCS Knowledge Base.  |\n--------------------------------------------------------------------------------\n",
    );
    r
}

} // verus!
