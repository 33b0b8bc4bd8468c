//! The prompt library panel: agents, skills and commands as markdown tables.
use crate::context::{ContextEntry, ContextItem};
use crate::entities::{find_of_type, first_of_type};
use crate::text::{chars_eq_str, chars_of};
use vstd::prelude::*;
use vstd::string::*;

verus! {

/// A prompt of the library (agent, skill or command).
pub struct PromptEntry {
    /// Prompt id (its file name).
    pub id: String,
    /// Display name.
    pub name: String,
    /// One-line description.
    pub description: String,
}

/// The directories the prompts are stored in, as displayed.
pub struct PromptDirs {
    pub agents: String,
    pub skills: String,
    pub commands: String,
}

/// A check mark when `b`.
pub open spec fn mark(b: bool) -> Seq<char> {
    if b {
        "✓"@
    } else {
        Seq::empty()
    }
}

/// One agent row.
pub open spec fn agent_row(a: PromptEntry, active: Option<Seq<char>>) -> Seq<char> {
    "| "@ + a.id@ + " | "@ + a.name@ + " | "@ + mark(active == Some(a.id@)) + " | "@ + a.description@ + " |\n"@
}

/// The agent rows.
pub open spec fn agent_rows(es: Seq<PromptEntry>, active: Option<Seq<char>>) -> Seq<char>
    decreases es.len(),
{
    if es.len() == 0 {
        Seq::empty()
    } else {
        agent_rows(es.drop_last(), active) + agent_row(es.last(), active)
    }
}

/// One skill row.
pub open spec fn skill_row(s: PromptEntry, loaded: Seq<Seq<char>>) -> Seq<char> {
    "| "@ + s.id@ + " | "@ + s.name@ + " | "@ + mark(loaded.contains(s.id@)) + " | "@ + s.description@ + " |\n"@
}

/// The skill rows.
pub open spec fn skill_rows(es: Seq<PromptEntry>, loaded: Seq<Seq<char>>) -> Seq<char>
    decreases es.len(),
{
    if es.len() == 0 {
        Seq::empty()
    } else {
        skill_rows(es.drop_last(), loaded) + skill_row(es.last(), loaded)
    }
}

/// One command row.
pub open spec fn command_row(c: PromptEntry) -> Seq<char> {
    "| /"@ + c.id@ + " | "@ + c.name@ + " | "@ + c.description@ + " |\n"@
}

/// The command rows.
pub open spec fn command_rows(es: Seq<PromptEntry>) -> Seq<char>
    decreases es.len(),
{
    if es.len() == 0 {
        Seq::empty()
    } else {
        command_rows(es.drop_last()) + command_row(es.last())
    }
}

/// The agents table (always present).
pub open spec fn agents_table(agents: Seq<PromptEntry>, active: Option<Seq<char>>) -> Seq<char> {
    "Agents (system prompts):\n\n| ID | Name | Active | Description |\n|------|------|--------|-------------|\n"@
        + agent_rows(agents, active)
}

/// The skills table, when there are skills.
pub open spec fn skills_table(skills: Seq<PromptEntry>, loaded: Seq<Seq<char>>) -> Seq<char> {
    if skills.len() > 0 {
        "\nSkills (use skill_load to load, Close_panel to unload):\n\n| ID | Name | Loaded | Description |\n|------|------|--------|-------------|\n"@
            + skill_rows(skills, loaded)
    } else {
        Seq::empty()
    }
}

/// The commands table, when there are commands.
pub open spec fn commands_table(commands: Seq<PromptEntry>) -> Seq<char> {
    if commands.len() > 0 {
        "\nCommands:\n\n| Command | Name | Description |\n|---------|------|-------------|\n"@ + command_rows(commands)
    } else {
        Seq::empty()
    }
}

/// Where the prompt files are, and how to edit or delete them.
pub open spec fn locations(dirs: PromptDirs) -> Seq<char> {
    "\nFile locations:\n- Agents: "@ + dirs.agents@ + "/\n- Skills: "@ + dirs.skills@ + "/\n- Commands: "@
        + dirs.commands@ + "/\n"@ + "\nTo edit: use the Edit tool on the .md file directly."@
        + "\nTo delete: delete the .md file.\n"@
}

/// The library text.
pub open spec fn library_text(
    agents: Seq<PromptEntry>,
    skills: Seq<PromptEntry>,
    commands: Seq<PromptEntry>,
    active: Option<Seq<char>>,
    loaded: Seq<Seq<char>>,
    dirs: PromptDirs,
) -> Seq<char> {
    agents_table(agents, active) + skills_table(skills, loaded) + commands_table(commands) + locations(dirs)
}

/// The view of an optional string.
pub open spec fn opt_view(s: Option<String>) -> Option<Seq<char>> {
    match s {
        Some(x) => Some(x@),
        None => None,
    }
}

/// Whether two strings are equal.
pub fn str_eq(a: &str, b: &str) -> (r: bool)
    ensures
        r == (a@ == b@),
{
    let v = chars_of(a);
    chars_eq_str(&v, b)
}

fn is_active(active: &Option<String>, id: &str) -> (r: bool)
    ensures
        r == (opt_view(*active) == Some(id@)),
{
    match active {
        Some(a) => str_eq(a.as_str(), id),
        None => false,
    }
}

/// Whether `id` is one of `list`.
pub fn list_contains(loaded: &Vec<String>, id: &str) -> (r: bool)
    ensures
        r == crate::text::views(loaded@).contains(id@),
{
    let ghost vs = crate::text::views(loaded@);
    let mut i: usize = 0;
    while i < loaded.len()
        invariant
            i <= loaded@.len(),
            vs == crate::text::views(loaded@),
            forall|k: int| 0 <= k < i ==> vs[k] != id@,
        decreases loaded@.len() - i,
    {
        if str_eq(loaded[i].as_str(), id) {
            assert(vs[i as int] == id@);
            return true;
        }
        i = i + 1;
    }
    false
}

fn push_row_end(out: &mut String, name: &str, middle: &str, description: &str)
    ensures
        final(out)@ == old(out)@ + " | "@ + name@ + " | "@ + middle@ + " | "@ + description@ + " |\n"@,
{
    out.append(" | ");
    out.append(name);
    out.append(" | ");
    out.append(middle);
    out.append(" | ");
    out.append(description);
    out.append(" |\n");
    assert(out@ =~= old(out)@ + " | "@ + name@ + " | "@ + middle@ + " | "@ + description@ + " |\n"@);
}

fn mark_str(b: bool) -> (r: &'static str)
    ensures
        r@ == mark(b),
{
    if b {
        "✓"
    } else {
        proof {
            reveal_strlit("");
        }
        ""
    }
}

/// The library panel text: the agents table (the active agent marked), the skills table
/// (loaded skills marked) and the commands table when there are any, and where the prompt
/// files are.
pub fn library_content(
    agents: &Vec<PromptEntry>,
    skills: &Vec<PromptEntry>,
    commands: &Vec<PromptEntry>,
    active_agent_id: &Option<String>,
    loaded_skill_ids: &Vec<String>,
    dirs: &PromptDirs,
) -> (r: String)
    ensures
        r@ == library_text(
            agents@,
            skills@,
            commands@,
            opt_view(*active_agent_id),
            crate::text::views(loaded_skill_ids@),
            *dirs,
        ),
{
    let ghost active = opt_view(*active_agent_id);
    let ghost loaded = crate::text::views(loaded_skill_ids@);
    let mut content = String::from_str(
        "Agents (system prompts):\n\n| ID | Name | Active | Description |\n|------|------|--------|-------------|\n",
    );
    let mut i: usize = 0;
    while i < agents.len()
        invariant
            i <= agents@.len(),
            active == opt_view(*active_agent_id),
            content@ == "Agents (system prompts):\n\n| ID | Name | Active | Description |\n|------|------|--------|-------------|\n"@
                + agent_rows(agents@.take(i as int), active),
        decreases agents@.len() - i,
    {
        let a = &agents[i];
        content.append("| ");
        content.append(a.id.as_str());
        let m = mark_str(is_active(active_agent_id, a.id.as_str()));
        push_row_end(&mut content, a.name.as_str(), m, a.description.as_str());
        proof {
            assert(agents@.take(i + 1).drop_last() =~= agents@.take(i as int));
        }
        i = i + 1;
    }
    assert(agents@.take(agents@.len() as int) =~= agents@);
    let ghost s1 = content@;
    if skills.len() > 0 {
        content.append(
            "\nSkills (use skill_load to load, Close_panel to unload):\n\n| ID | Name | Loaded | Description |\n|------|------|--------|-------------|\n",
        );
        let ghost h = content@;
        let mut j: usize = 0;
        while j < skills.len()
            invariant
                j <= skills@.len(),
                loaded == crate::text::views(loaded_skill_ids@),
                content@ == h + skill_rows(skills@.take(j as int), loaded),
            decreases skills@.len() - j,
        {
            let s = &skills[j];
            content.append("| ");
            content.append(s.id.as_str());
            let m = mark_str(list_contains(loaded_skill_ids, s.id.as_str()));
            push_row_end(&mut content, s.name.as_str(), m, s.description.as_str());
            proof {
                assert(skills@.take(j + 1).drop_last() =~= skills@.take(j as int));
            }
            j = j + 1;
        }
        assert(skills@.take(skills@.len() as int) =~= skills@);
    }
    assert(content@ =~= s1 + skills_table(skills@, loaded));
    let ghost s2 = content@;
    if commands.len() > 0 {
        content.append("\nCommands:\n\n| Command | Name | Description |\n|---------|------|-------------|\n");
        let ghost h = content@;
        let mut k: usize = 0;
        while k < commands.len()
            invariant
                k <= commands@.len(),
                content@ == h + command_rows(commands@.take(k as int)),
            decreases commands@.len() - k,
        {
            let c = &commands[k];
            content.append("| /");
            content.append(c.id.as_str());
            content.append(" | ");
            content.append(c.name.as_str());
            content.append(" | ");
            content.append(c.description.as_str());
            content.append(" |\n");
            proof {
                assert(commands@.take(k + 1).drop_last() =~= commands@.take(k as int));
                assert(content@ =~= h + command_rows(commands@.take(k + 1)));
            }
            k = k + 1;
        }
        assert(commands@.take(commands@.len() as int) =~= commands@);
    }
    assert(content@ =~= s2 + commands_table(commands@));
    let ghost s3 = content@;
    content.append("\nFile locations:\n- Agents: ");
    content.append(dirs.agents.as_str());
    content.append("/\n- Skills: ");
    content.append(dirs.skills.as_str());
    content.append("/\n- Commands: ");
    content.append(dirs.commands.as_str());
    content.append("/\n");
    content.append("\nTo edit: use the Edit tool on the .md file directly.");
    content.append("\nTo delete: delete the .md file.\n");
    assert(content@ =~= s3 + locations(*dirs));
    content
}

/// Panel displaying the full prompt library (agents, skills, commands).
pub struct LibraryPanel;

impl LibraryPanel {
    /// Panel title.
    pub fn title(&self) -> (r: &'static str)
        ensures
            r@ == "Library"@,
    {
        "Library"
    }

    /// The panel needs no background cache.
    pub fn needs_cache(&self) -> (r: bool)
        ensures
            !r,
    {
        false
    }

    /// How many times the panel may be frozen.
    pub fn max_freezes(&self) -> (r: u8)
        ensures
            r == 3,
    {
        3
    }

    /// The panel's context: one item headed `Library` with the library text, for the first
    /// entry of type `library`; nothing when there is no such entry.
    pub fn context(&self, entries: &Vec<ContextEntry>, content: String) -> (r: Vec<ContextItem>)
        ensures
            match first_of_type(entries@, "library"@) {
                Some(i) => r@.len() == 1 && r@[0].id@ == entries@[i].id@ && r@[0].header@ == "Library"@
                    && r@[0].content@ == content@ && r@[0].last_refresh_ms == entries@[i].last_refresh_ms,
                None => r@.len() == 0,
            },
    {
        let found = find_of_type(entries, "library");
        match found {
            Some(i) => {
                let item = ContextItem {
                    id: entries[i].id.clone(),
                    header: String::from_str("Library"),
                    content,
                    last_refresh_ms: entries[i].last_refresh_ms,
                };
                vec![item]
            },
            None => Vec::new(),
        }
    }
}

} // verus!
