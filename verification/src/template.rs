//! The built-in project templates of `pact new` and the `{{name}}`
//! placeholder substitution.

use vstd::prelude::*;

verus! {

/// `pact.toml` of the `bin` template.
pub const BIN_MANIFEST: &'static str = "[package]\nname    = \"{{name}}\"\nversion = \"0.1.0\"\n\n[dependencies]\n\n[pacts]\nrequired = [\"Console\"]\n";

/// `src/main.pact` of the `bin` template.
pub const BIN_MAIN: &'static str = "-- Entry point of {{name}}.\n\nfun main() {\n    Console.print(\"Hello from {{name}}!\")\n}\n";

/// `test/main_test.pact` of the `bin` template.
pub const BIN_MAIN_TEST: &'static str = "-- Tests for {{name}}.\n\ntest \"main runs\" {\n    assert(True)\n}\n";

/// `.gitignore` of the `bin` template.
pub const BIN_GITIGNORE: &'static str = "/target\n";

/// `pact.toml` of the `lib` template.
pub const LIB_MANIFEST: &'static str = "[package]\nname    = \"{{name}}\"\nversion = \"0.1.0\"\n\n[dependencies]\n\n[pacts]\nrequired = []\n";

/// `src/lib.pact` of the `lib` template.
pub const LIB_SRC: &'static str = "-- {{name}} library\n\npub fun greet(who) {\n    \"Hello, ${who}!\"\n}\n";

/// `test/lib_test.pact` of the `lib` template.
pub const LIB_TEST: &'static str = "-- Tests for the {{name}} library.\n\ntest \"greet\" {\n    assert(greet(\"pact\") == \"Hello, pact!\")\n}\n";

/// `.gitignore` of the `lib` template.
pub const LIB_GITIGNORE: &'static str = "/target\n";

/// `pact.toml` of the `agent` template.
pub const AGENT_MANIFEST: &'static str = "[package]\nname    = \"{{name}}\"\nversion = \"0.1.0\"\n\n[dependencies]\n\n[pacts]\nrequired = [\"AgentIO\"]\n\n[seal]\nmax_memory    = \"256mb\"\nmax_duration  = \"30s\"\nallowed_hosts = []\n";

/// `src/main.pact` of the `agent` template.
pub const AGENT_MAIN: &'static str = "-- {{name}}: a sandboxed agent.\n\npact AgentIO {\n    fun call_tool(name as String, args as Json) => Json\n    fun log(msg as String) => ()\n}\n\nfun main() with {AgentIO} {\n    AgentIO.log(\"{{name}} started\")\n}\n";

/// `test/main_test.pact` of the `agent` template.
pub const AGENT_MAIN_TEST: &'static str = "-- Tests for {{name}}.\n\ntest \"agent starts\" {\n    assert(True)\n}\n";

/// `.gitignore` of the `agent` template.
pub const AGENT_GITIGNORE: &'static str = "/target\n";

/// Project template variants for `pact new`.
#[derive(Clone, Copy, Debug, PartialEq, Eq, Structural)]
pub enum Template {
    /// A binary (executable) project.
    Bin,
    /// A library project.
    Lib,
    /// A sandboxed agent project using `AgentIO`.
    Agent,
}

impl Default for Template {
    /// The default template is `bin`.
    fn default() -> (r: Template)
        ensures
            r == Template::Bin,
    {
        Template::Bin
    }
}

/// A single file of a template: its path relative to the project root and its
/// text, which may hold `{{name}}` placeholders.
#[derive(Clone, Copy, Debug, PartialEq, Eq)]
pub struct TemplateFile {
    pub path: &'static str,
    pub content: &'static str,
}

/// The name a template is shown and selected by.
pub open spec fn template_name(t: Template) -> Seq<char> {
    match t {
        Template::Bin => "bin"@,
        Template::Lib => "lib"@,
        Template::Agent => "agent"@,
    }
}

/// The files of each template, in the order they are written.
pub open spec fn template_entries(t: Template) -> Seq<TemplateFile> {
    match t {
        Template::Bin => seq![
            TemplateFile { path: "pact.toml", content: BIN_MANIFEST },
            TemplateFile { path: "src/main.pact", content: BIN_MAIN },
            TemplateFile { path: "test/main_test.pact", content: BIN_MAIN_TEST },
            TemplateFile { path: ".gitignore", content: BIN_GITIGNORE },
        ],
        Template::Lib => seq![
            TemplateFile { path: "pact.toml", content: LIB_MANIFEST },
            TemplateFile { path: "src/lib.pact", content: LIB_SRC },
            TemplateFile { path: "test/lib_test.pact", content: LIB_TEST },
            TemplateFile { path: ".gitignore", content: LIB_GITIGNORE },
        ],
        Template::Agent => seq![
            TemplateFile { path: "pact.toml", content: AGENT_MANIFEST },
            TemplateFile { path: "src/main.pact", content: AGENT_MAIN },
            TemplateFile { path: "test/main_test.pact", content: AGENT_MAIN_TEST },
            TemplateFile { path: ".gitignore", content: AGENT_GITIGNORE },
        ],
    }
}

impl Template {
    /// The template's display name: `bin`, `lib` or `agent`.
    pub fn to_string(&self) -> (r: String)
        ensures
            r@ == template_name(*self),
    {
        match self {
            Template::Bin => String::from_str("bin"),
            Template::Lib => String::from_str("lib"),
            Template::Agent => String::from_str("agent"),
        }
    }
}

/// The files generated for `template`.
pub fn template_files(template: Template) -> (r: Vec<TemplateFile>)
    ensures
        r@ == template_entries(template),
{
    match template {
        Template::Bin => vec![
            TemplateFile { path: "pact.toml", content: BIN_MANIFEST },
            TemplateFile { path: "src/main.pact", content: BIN_MAIN },
            TemplateFile { path: "test/main_test.pact", content: BIN_MAIN_TEST },
            TemplateFile { path: ".gitignore", content: BIN_GITIGNORE },
        ],
        Template::Lib => vec![
            TemplateFile { path: "pact.toml", content: LIB_MANIFEST },
            TemplateFile { path: "src/lib.pact", content: LIB_SRC },
            TemplateFile { path: "test/lib_test.pact", content: LIB_TEST },
            TemplateFile { path: ".gitignore", content: LIB_GITIGNORE },
        ],
        Template::Agent => vec![
            TemplateFile { path: "pact.toml", content: AGENT_MANIFEST },
            TemplateFile { path: "src/main.pact", content: AGENT_MAIN },
            TemplateFile { path: "test/main_test.pact", content: AGENT_MAIN_TEST },
            TemplateFile { path: ".gitignore", content: AGENT_GITIGNORE },
        ],
    }
}

/// The placeholder that stands for the project name.
pub open spec fn placeholder() -> Seq<char> {
    seq!['{', '{', 'n', 'a', 'm', 'e', '}', '}']
}

/// `t` with every `{{name}}` replaced by `name`, scanning from the left and
/// never looking into text that was put in.
pub open spec fn substitute(t: Seq<char>, name: Seq<char>) -> Seq<char>
    decreases t.len(),
{
    if t.len() == 0 {
        t
    } else if t.len() >= 8 && t.take(8) == placeholder() {
        name + substitute(t.skip(8), name)
    } else {
        seq![t[0]] + substitute(t.drop_first(), name)
    }
}

/// Whether `{{name}}` stands in `t` at position `i`.
fn placeholder_at(t: &str, n: usize, i: usize) -> (r: bool)
    requires
        n == t@.len(),
        i < n,
    ensures
        r == (t@.skip(i as int).len() >= 8 && t@.skip(i as int).take(8) == placeholder()),
{
    if n - i < 8 {
        return false;
    }
    let r = t.get_char(i) == '{' && t.get_char(i + 1) == '{' && t.get_char(i + 2) == 'n'
        && t.get_char(i + 3) == 'a' && t.get_char(i + 4) == 'm' && t.get_char(i + 5) == 'e'
        && t.get_char(i + 6) == '}' && t.get_char(i + 7) == '}';
    proof {
        let w = t@.skip(i as int).take(8);
        if r {
            assert(w =~= placeholder());
        } else {
            if w == placeholder() {
                assert(w[0] == t@[i as int] && w[1] == t@[i + 1] && w[2] == t@[i + 2] && w[3]
                    == t@[i + 3]);
                assert(w[4] == t@[i + 4] && w[5] == t@[i + 5] && w[6] == t@[i + 6] && w[7]
                    == t@[i + 7]);
            }
        }
    }
    r
}

/// Replace every `{{name}}` in `template` by `name`.
pub fn substitute_name(template: &str, name: &str) -> (r: String)
    ensures
        r@ == substitute(template@, name@),
{
    let n = template.unicode_len();
    let mut out = String::new();
    let mut i: usize = 0;
    assert(template@.skip(0) =~= template@);
    while i < n
        invariant
            n == template@.len(),
            i <= n,
            out@ + substitute(template@.skip(i as int), name@) == substitute(template@, name@),
        decreases n - i,
    {
        let ghost rest = template@.skip(i as int);
        if placeholder_at(template, n, i) {
            out.append(name);
            assert(rest.skip(8) =~= template@.skip(i + 8));
            assert(out@ + substitute(template@.skip(i + 8), name@) =~= substitute(template@, name@));
            i = i + 8;
        } else {
            let piece = template.substring_char(i, i + 1);
            assert(piece@ =~= seq![rest[0]]);
            out.append(piece);
            assert(rest.drop_first() =~= template@.skip(i + 1));
            assert(out@ + substitute(template@.skip(i + 1), name@) =~= substitute(template@, name@));
            i = i + 1;
        }
    }
    assert(template@.skip(n as int) =~= Seq::<char>::empty());
    assert(out@ + Seq::<char>::empty() =~= out@);
    out
}

/// Each template writes exactly its own four files: its manifest, its
/// sources and tests, and its `.gitignore`, each path paired with its own text.
pub proof fn lemma_template_contents()
    ensures
        template_entries(Template::Bin).len() == 4,
        template_entries(Template::Bin)[0] == (TemplateFile { path: "pact.toml", content: BIN_MANIFEST }),
        template_entries(Template::Bin)[1] == (TemplateFile { path: "src/main.pact", content: BIN_MAIN }),
        template_entries(Template::Bin)[2] == (TemplateFile {
            path: "test/main_test.pact",
            content: BIN_MAIN_TEST,
        }),
        template_entries(Template::Bin)[3] == (TemplateFile { path: ".gitignore", content: BIN_GITIGNORE }),
        template_entries(Template::Lib).len() == 4,
        template_entries(Template::Lib)[0] == (TemplateFile { path: "pact.toml", content: LIB_MANIFEST }),
        template_entries(Template::Lib)[1] == (TemplateFile { path: "src/lib.pact", content: LIB_SRC }),
        template_entries(Template::Lib)[2] == (TemplateFile { path: "test/lib_test.pact", content: LIB_TEST }),
        template_entries(Template::Lib)[3] == (TemplateFile { path: ".gitignore", content: LIB_GITIGNORE }),
        template_entries(Template::Agent).len() == 4,
        template_entries(Template::Agent)[0] == (TemplateFile { path: "pact.toml", content: AGENT_MANIFEST }),
        template_entries(Template::Agent)[1] == (TemplateFile { path: "src/main.pact", content: AGENT_MAIN }),
        template_entries(Template::Agent)[2] == (TemplateFile {
            path: "test/main_test.pact",
            content: AGENT_MAIN_TEST,
        }),
        template_entries(Template::Agent)[3] == (TemplateFile {
            path: ".gitignore",
            content: AGENT_GITIGNORE,
        }),
{
}

/// The templates are shown as `bin`, `lib` and `agent`.
pub proof fn lemma_template_names()
    ensures
        template_name(Template::Bin) == seq!['b', 'i', 'n'],
        template_name(Template::Lib) == seq!['l', 'i', 'b'],
        template_name(Template::Agent) == seq!['a', 'g', 'e', 'n', 't'],
{
    reveal_strlit("bin");
    reveal_strlit("lib");
    reveal_strlit("agent");
    assert(template_name(Template::Bin) =~= seq!['b', 'i', 'n']);
    assert(template_name(Template::Lib) =~= seq!['l', 'i', 'b']);
    assert(template_name(Template::Agent) =~= seq!['a', 'g', 'e', 'n', 't']);
}

/// The name goes in verbatim, wherever a placeholder stands: a leading
/// placeholder becomes the name itself, and in particular the placeholder
/// alone becomes exactly the name.
pub proof fn lemma_substitute_placeholder(t: Seq<char>, name: Seq<char>)
    ensures
        substitute(placeholder() + t, name) == name + substitute(t, name),
        substitute(placeholder(), name) == name,
{
    let p = placeholder() + t;
    assert(p.take(8) =~= placeholder());
    assert(p.skip(8) =~= t);
    let q = placeholder();
    assert(q.take(8) =~= placeholder());
    assert(q.skip(8) =~= Seq::<char>::empty());
    assert(substitute(Seq::<char>::empty(), name) == Seq::<char>::empty());
    assert(name + Seq::<char>::empty() =~= name);
}

/// A character that cannot open a placeholder is copied as is.
pub proof fn lemma_substitute_plain_char(c: char, t: Seq<char>, name: Seq<char>)
    requires
        c != '{',
    ensures
        substitute(seq![c] + t, name) == seq![c] + substitute(t, name),
{
    let s = seq![c] + t;
    if s.len() >= 8 && s.take(8) == placeholder() {
        assert(s.take(8)[0] == c);
    }
    assert(s.drop_first() =~= t);
}

/// Text without `{` holds no placeholder and comes through unchanged.
pub proof fn lemma_substitute_no_brace(t: Seq<char>, name: Seq<char>)
    requires
        forall|i: int| 0 <= i < t.len() ==> #[trigger] t[i] != '{',
    ensures
        substitute(t, name) == t,
    decreases t.len(),
{
    if t.len() > 0 {
        lemma_substitute_no_brace(t.drop_first(), name);
        lemma_substitute_plain_char(t[0], t.drop_first(), name);
        assert(seq![t[0]] + t.drop_first() =~= t);
    }
}

} // verus!
