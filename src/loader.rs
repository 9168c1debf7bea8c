//! The loader: locating an installed package's manifest, flattening its
//! commands into capabilities, and rendering a summary of several packages.
use vstd::prelude::*;
use vstd::string::*;

use crate::error::TalonError;
use crate::manifest::{CommandArg, TalonCommand, TalonInfo};
use crate::text::copy_option;
use crate::registry::{Found, TalonRegistry, discovered, reports, upsert_all};

verus! {

/// One invokable command of a package, named `<package>.<command>`.
#[derive(Debug, Clone, PartialEq, Eq)]
pub struct TalonCapability {
    pub name: String,
    pub description: String,
    pub args: Vec<CapabilityArg>,
}

/// One argument of a capability.
#[derive(Debug, Clone, PartialEq, Eq)]
pub struct CapabilityArg {
    pub name: String,
    pub arg_type: String,
    pub required: bool,
    pub description: Option<String>,
}

/// `c` carries the name, type tag, required flag and description of
/// argument `a`.
pub open spec fn arg_flattened(c: CapabilityArg, a: CommandArg) -> bool {
    c.name == a.name && c.arg_type == a.arg_type && c.required == a.required && c.description
        == a.description
}

/// `c` is the capability of package `package` for command `cmd`.
pub open spec fn capability_flattened(c: TalonCapability, package: Seq<char>, cmd: TalonCommand) -> bool {
    &&& c.name@ == package + "."@ + cmd.name@
    &&& c.description == cmd.description
    &&& c.args@.len() == cmd.args@.len()
    &&& forall|j: int| 0 <= j < c.args@.len() ==> arg_flattened(#[trigger] c.args@[j], cmd.args@[j])
}

/// The bulleted command list of a summary section.
pub open spec fn command_lines(cmds: Seq<TalonCommand>) -> Seq<char>
    decreases cmds.len(),
{
    if cmds.len() == 0 {
        Seq::empty()
    } else {
        command_lines(cmds.drop_last()) + "- "@ + cmds.last().name@ + ": "@
            + cmds.last().description@ + "\n"@
    }
}

/// The summary section of one package: heading with name and version, the
/// description, then the commands if there are any.
pub open spec fn section(t: TalonInfo) -> Seq<char> {
    "## "@ + t.manifest.name@ + " (v"@ + t.manifest.version@ + ")\n"@ + t.manifest.description@
        + "\n\n"@ + if t.manifest.commands@.len() == 0 {
        Seq::empty()
    } else {
        "Commands:\n"@ + command_lines(t.manifest.commands@) + "\n"@
    }
}

/// The sections of the packages that loaded, in order; failed loads give
/// nothing.
pub open spec fn sections(loaded: Seq<Option<TalonInfo>>) -> Seq<char>
    decreases loaded.len(),
{
    if loaded.len() == 0 {
        Seq::empty()
    } else {
        sections(loaded.drop_last()) + match loaded.last() {
            Some(t) => section(t),
            None => Seq::empty(),
        }
    }
}

/// The whole summary text.
pub open spec fn system_prompt(loaded: Seq<Option<TalonInfo>>) -> Seq<char> {
    "Available Talons:\n\n"@ + sections(loaded)
}

fn flatten_args(args: &Vec<CommandArg>) -> (r: Vec<CapabilityArg>)
    ensures
        r@.len() == args@.len(),
        forall|j: int| 0 <= j < r@.len() ==> arg_flattened(#[trigger] r@[j], args@[j]),
{
    let mut out: Vec<CapabilityArg> = Vec::new();
    let mut j: usize = 0;
    while j < args.len()
        invariant
            j <= args@.len(),
            out@.len() == j,
            forall|i: int| 0 <= i < j ==> arg_flattened(#[trigger] out@[i], args@[i]),
        decreases args@.len() - j,
    {
        let a = &args[j];
        out.push(
            CapabilityArg {
                name: a.name.clone(),
                arg_type: a.arg_type.clone(),
                required: a.required,
                description: copy_option(&a.description),
            },
        );
        j += 1;
    }
    out
}

fn append_section(prompt: &mut String, t: &TalonInfo)
    ensures
        final(prompt)@ == old(prompt)@ + section(*t),
{
    let ghost start = prompt@;
    prompt.append("## ");
    prompt.append(t.manifest.name.as_str());
    prompt.append(" (v");
    prompt.append(t.manifest.version.as_str());
    prompt.append(")\n");
    prompt.append(t.manifest.description.as_str());
    prompt.append("\n\n");
    let ghost head = prompt@;
    let cmds = &t.manifest.commands;
    if cmds.len() > 0 {
        prompt.append("Commands:\n");
        let mut i: usize = 0;
        while i < cmds.len()
            invariant
                i <= cmds@.len(),
                prompt@ == head + "Commands:\n"@ + command_lines(cmds@.take(i as int)),
            decreases cmds@.len() - i,
        {
            assert(cmds@.take(i + 1).drop_last() =~= cmds@.take(i as int));
            prompt.append("- ");
            prompt.append(cmds[i].name.as_str());
            prompt.append(": ");
            prompt.append(cmds[i].description.as_str());
            prompt.append("\n");
            i += 1;
            assert(prompt@ =~= head + "Commands:\n"@ + command_lines(cmds@.take(i as int)));
        }
        assert(cmds@.take(cmds@.len() as int) =~= cmds@);
        prompt.append("\n");
    }
    assert(prompt@ =~= start + section(*t));
}

/// Turns registry entries into full package descriptions and capability
/// views.
pub struct TalonLoader {
    pub registry: TalonRegistry,
}

impl TalonLoader {
    /// A loader over `registry`.
    pub fn new(registry: TalonRegistry) -> (r: TalonLoader)
        ensures
            r.registry == registry,
    {
        TalonLoader { registry }
    }

    /// Runs discovery on the registry: see `TalonRegistry::discover_talons`.
    pub fn discover_and_load(&mut self, found: Vec<Found>) -> (r: Vec<TalonInfo>)
        requires
            old(self).registry.wf(),
        ensures
            final(self).registry.wf(),
            final(self).registry.talons_dir == old(self).registry.talons_dir,
            final(self).registry.index.map() == upsert_all(
                old(self).registry.index.map(),
                found@,
            ),
            final(self).registry.index.spec_version() == old(
                self,
            ).registry.index.spec_version(),
            r@.len() == discovered(found@).len(),
            forall|i: int|
                0 <= i < r@.len() ==> reports(
                    #[trigger] r@[i],
                    discovered(found@)[i].0,
                    discovered(found@)[i].1,
                ),
    {
        self.registry.discover_talons(found)
    }

    /// The directory of the installed package `name`, where its manifest is
    /// read from; fails with `NotFound` when no such package is installed.
    pub fn locate(&self, name: &str) -> (r: Result<String, TalonError>)
        requires
            self.registry.wf(),
        ensures
            r is Ok == self.registry.index.map().contains_key(name@),
            r is Ok ==> r->Ok_0 == self.registry.index.map()[name@].path,
            r is Err ==> (match r->Err_0 {
                TalonError::NotFound(n) => n@ == name@,
                _ => false,
            }),
    {
        match self.registry.get_talon(name) {
            Some(e) => Ok(e.path.clone()),
            None => Err(TalonError::NotFound(name.to_owned())),
        }
    }

    /// The capabilities of package `name` as loaded in `talon`: one per
    /// declared command, in declaration order, named `<name>.<command>`.
    pub fn get_capabilities(&self, name: &str, talon: &TalonInfo) -> (r: Vec<TalonCapability>)
        ensures
            r@.len() == talon.manifest.commands@.len(),
            forall|i: int|
                0 <= i < r@.len() ==> capability_flattened(
                    #[trigger] r@[i],
                    name@,
                    talon.manifest.commands@[i],
                ),
    {
        let cmds = &talon.manifest.commands;
        let mut out: Vec<TalonCapability> = Vec::new();
        let mut i: usize = 0;
        while i < cmds.len()
            invariant
                i <= cmds@.len(),
                out@.len() == i,
                forall|k: int|
                    0 <= k < i ==> capability_flattened(#[trigger] out@[k], name@, cmds@[k]),
            decreases cmds@.len() - i,
        {
            let cmd = &cmds[i];
            let mut full = name.to_owned();
            full.append(".");
            full.append(cmd.name.as_str());
            let args = flatten_args(&cmd.args);
            out.push(TalonCapability { name: full, description: cmd.description.clone(), args });
            i += 1;
        }
        out
    }

    /// A summary of the packages in `loaded`, in order: packages that failed
    /// to load (`None`) are skipped; each loaded one gives a heading with its
    /// name and version, its description, and its commands if any.
    pub fn generate_system_prompt(&self, loaded: &Vec<Option<TalonInfo>>) -> (r: String)
        ensures
            r@ == system_prompt(loaded@),
    {
        let mut prompt = "Available Talons:\n\n".to_owned();
        let mut i: usize = 0;
        while i < loaded.len()
            invariant
                i <= loaded@.len(),
                prompt@ == "Available Talons:\n\n"@ + sections(loaded@.take(i as int)),
            decreases loaded@.len() - i,
        {
            assert(loaded@.take(i + 1).drop_last() =~= loaded@.take(i as int));
            match &loaded[i] {
                Some(t) => append_section(&mut prompt, t),
                None => {},
            }
            i += 1;
            assert(prompt@ =~= "Available Talons:\n\n"@ + sections(loaded@.take(i as int)));
        }
        assert(loaded@.take(loaded@.len() as int) =~= loaded@);
        prompt
    }
}

} // verus!
