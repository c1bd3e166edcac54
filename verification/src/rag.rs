//! Exporting a workspace as Markdown archives for retrieval: every file goes,
//! by its extension or name, to one of four categories (or to the excluded
//! list when it cannot be read as text), and each category is written to
//! numbered parts of about `MAX_LINES_PER_FILE` lines.

use vstd::prelude::*;

use crate::paths::file_name;
use crate::text::{concat2, concat3, contains_str, decimal, owned, str_eq, text_lines, to_chars,
    u64_to_decimal, contains_seq, split_lines};

verus! {

/// A part is closed once it holds this many lines.
pub const MAX_LINES_PER_FILE: usize = 10_000;

/// The archive a file goes to.
#[derive(Debug, Clone, Copy, PartialEq, Eq, Structural)]
pub enum Category {
    Logic,
    Config,
    Content,
    Misc,
    Excluded,
}

impl Category {
    pub open spec fn spec_prefix(self) -> Seq<char> {
        match self {
            Category::Logic => "rag_logic"@,
            Category::Config => "rag_config"@,
            Category::Content => "rag_content"@,
            Category::Misc => "rag_misc"@,
            Category::Excluded => "rag_excluded"@,
        }
    }

    /// The file-name prefix of the category's parts.
    pub fn prefix(&self) -> (s: &'static str)
        ensures
            s@ == self.spec_prefix(),
    {
        match self {
            Category::Logic => "rag_logic",
            Category::Config => "rag_config",
            Category::Content => "rag_content",
            Category::Misc => "rag_misc",
            Category::Excluded => "rag_excluded",
        }
    }

    pub open spec fn spec_title(self) -> Seq<char> {
        match self {
            Category::Logic => "Logic"@,
            Category::Config => "Config"@,
            Category::Content => "Content"@,
            Category::Misc => "Misc"@,
            Category::Excluded => "Excluded"@,
        }
    }

    /// The category's name as part headers show it.
    pub fn title(&self) -> (s: &'static str)
        ensures
            s@ == self.spec_title(),
    {
        match self {
            Category::Logic => "Logic",
            Category::Config => "Config",
            Category::Content => "Content",
            Category::Misc => "Misc",
            Category::Excluded => "Excluded",
        }
    }

    pub open spec fn index(self) -> int {
        match self {
            Category::Logic => 0,
            Category::Config => 1,
            Category::Content => 2,
            Category::Misc => 3,
            Category::Excluded => 4,
        }
    }
}

/// The index of the last `.` in `s`.
pub open spec fn last_dot(s: Seq<char>) -> Option<int>
    decreases s.len(),
{
    if s.len() == 0 {
        None
    } else if s.last() == '.' {
        Some(s.len() - 1)
    } else {
        last_dot(s.drop_last())
    }
}

/// The extension of a file name (`Path::extension`): the text after its last
/// `.`, unless that `.` starts the name.
pub open spec fn extension(name: Seq<char>) -> Option<Seq<char>> {
    match last_dot(name) {
        Some(i) => if i == 0 {
            None
        } else {
            Some(name.skip(i + 1))
        },
        None => None,
    }
}

pub open spec fn one_of(s: Seq<char>, options: Seq<Seq<char>>) -> bool {
    options.contains(s)
}

/// The category of a file by its path.
pub open spec fn category_of(path: Seq<char>) -> Category {
    let name = match file_name(path) {
        Some(n) => n,
        None => seq![],
    };
    let ext = match extension(name) {
        Some(e) => e,
        None => seq![],
    };
    if one_of(ext, seq!["rs"@, "py"@, "js"@, "ts"@, "go"@, "sh"@, "c"@, "cpp"@, "h"@]) {
        Category::Logic
    } else if one_of(ext, seq!["toml"@, "json"@, "yml"@, "yaml"@, "ini"@]) {
        Category::Config
    } else if one_of(ext, seq!["md"@, "txt"@, "csv"@]) {
        Category::Content
    } else if one_of(name, seq!["justfile"@, "Dockerfile"@, ".gitignore"@, ".editorconfig"@]) {
        Category::Config
    } else if one_of(name, seq!["LICENSE-APACHE"@, "LICENSE-MIT"@]) {
        Category::Content
    } else {
        Category::Misc
    }
}

fn is_one_of(s: &str, options: &Vec<&'static str>) -> (b: bool)
    ensures
        b == one_of(s@, options@.map_values(|o: &'static str| o@)),
{
    let ghost os = options@.map_values(|o: &'static str| o@);
    let mut i: usize = 0;
    while i < options.len()
        invariant
            i <= options.len(),
            os == options@.map_values(|o: &'static str| o@),
            forall|j: int| 0 <= j < i ==> os[j] != s@,
        decreases options.len() - i,
    {
        if str_eq(s, options[i]) {
            assert(os[i as int] == s@);
            return true;
        }
        i += 1;
    }
    false
}

fn extension_exec(name: &Vec<char>) -> (r: Vec<char>)
    ensures
        r@ == match extension(name@) {
            Some(e) => e,
            None => seq![],
        },
{
    let mut i = name.len();
    assert(name@.take(name.len() as int) =~= name@);
    while i > 0 && name[i - 1] != '.'
        invariant
            i <= name.len(),
            last_dot(name@) == last_dot(name@.take(i as int)),
        decreases i,
    {
        assert(name@.take(i as int).drop_last() =~= name@.take(i - 1));
        i -= 1;
    }
    proof {
        assert(name@.take(name.len() as int) =~= name@);
    }
    if i <= 1 {
        proof {
            if i == 1 {
                assert(name@.take(1).last() == '.');
            }
        }
        Vec::new()
    } else {
        assert(name@.take(i as int).last() == '.');
        let r = crate::text::slice_chars(name, i, name.len());
        assert(r@ =~= name@.skip(i as int));
        r
    }
}

/// The category of a file by its path.
pub fn categorize(path: &str) -> (c: Category)
    ensures
        c == category_of(path@),
{
    let name = crate::paths::file_name_chars(path);
    let ext_chars = extension_exec(&name);
    let ext = crate::text::from_chars(&ext_chars);
    let name_s = crate::text::from_chars(&name);
    let logic = vec!["rs", "py", "js", "ts", "go", "sh", "c", "cpp", "h"];
    let config = vec!["toml", "json", "yml", "yaml", "ini"];
    let content = vec!["md", "txt", "csv"];
    let config_names = vec!["justfile", "Dockerfile", ".gitignore", ".editorconfig"];
    let content_names = vec!["LICENSE-APACHE", "LICENSE-MIT"];
    assert(logic@.map_values(|o: &'static str| o@) =~= seq!["rs"@, "py"@, "js"@, "ts"@, "go"@, "sh"@, "c"@, "cpp"@, "h"@]);
    assert(config@.map_values(|o: &'static str| o@) =~= seq!["toml"@, "json"@, "yml"@, "yaml"@, "ini"@]);
    assert(content@.map_values(|o: &'static str| o@) =~= seq!["md"@, "txt"@, "csv"@]);
    assert(config_names@.map_values(|o: &'static str| o@) =~= seq!["justfile"@, "Dockerfile"@, ".gitignore"@, ".editorconfig"@]);
    assert(content_names@.map_values(|o: &'static str| o@) =~= seq!["LICENSE-APACHE"@, "LICENSE-MIT"@]);
    if is_one_of(ext.as_str(), &logic) {
        Category::Logic
    } else if is_one_of(ext.as_str(), &config) {
        Category::Config
    } else if is_one_of(ext.as_str(), &content) {
        Category::Content
    } else if is_one_of(name_s.as_str(), &config_names) {
        Category::Config
    } else if is_one_of(name_s.as_str(), &content_names) {
        Category::Content
    } else {
        Category::Misc
    }
}

/// Directories the walk never enters: `.git`, `target` and the export itself.
pub fn skip_directory(name: &str) -> (b: bool)
    ensures
        b == (name@ == ".git"@ || name@ == "target"@ || name@ == "rag_export"@),
{
    str_eq(name, ".git") || str_eq(name, "target") || str_eq(name, "rag_export")
}

/// Lock files (any path mentioning `Cargo.lock`) are not exported.
pub fn skip_file(path: &str) -> (b: bool)
    ensures
        b == contains_seq(path@, "Cargo.lock"@),
{
    let p = to_chars(path);
    contains_str(&p, "Cargo.lock")
}

// ----------------------------------------------------------------------------
// Writing the parts.
// ----------------------------------------------------------------------------

/// Where a category's writing stands.
#[derive(Debug, Clone, Copy, PartialEq, Eq, Structural)]
pub struct CategoryWriter {
    pub category: Category,
    /// The number of the current part.
    pub file_index: usize,
    /// Lines written to the current part.
    pub current_lines: usize,
    /// Whether a part is open.
    pub open: bool,
}

/// One write the export makes.
#[derive(Debug)]
pub enum WriteOp {
    /// Create a part with this name and write its header.
    Create { category: Category, file_name: String, header: String },
    /// Append text to the category's current part.
    Append { category: Category, text: String },
}

pub enum OpView {
    Create { category: Category, file_name: Seq<char>, header: Seq<char> },
    Append { category: Category, text: Seq<char> },
}

impl View for WriteOp {
    type V = OpView;

    open spec fn view(&self) -> OpView {
        match self {
            WriteOp::Create { category, file_name, header } => OpView::Create {
                category: *category,
                file_name: file_name@,
                header: header@,
            },
            WriteOp::Append { category, text } => OpView::Append { category: *category, text: text@ },
        }
    }
}

pub open spec fn op_views(ops: Seq<WriteOp>) -> Seq<OpView> {
    ops.map_values(|o: WriteOp| o@)
}

/// The name of a category's part.
pub open spec fn part_name(c: Category, index: usize) -> Seq<char> {
    c.spec_prefix() + "_"@ + decimal(index as nat) + ".md"@
}

/// The header of a category's part.
pub open spec fn part_header(c: Category, index: usize) -> Seq<char> {
    "# RAG Export - "@ + c.spec_title() + " (Part "@ + decimal(index as nat) + ")\n\n"@
}

/// Before writing: a new part is opened when none is, or when the current one
/// holds `MAX_LINES_PER_FILE` lines; its header counts two lines.
pub open spec fn ready(w: CategoryWriter) -> (CategoryWriter, Seq<OpView>) {
    if !w.open || w.current_lines >= MAX_LINES_PER_FILE {
        let index = if w.open { (w.file_index + 1) as usize } else { w.file_index };
        (
            CategoryWriter { file_index: index, current_lines: 2, open: true, ..w },
            seq![OpView::Create { category: w.category, file_name: part_name(w.category, index), header: part_header(w.category, index) }],
        )
    } else {
        (w, seq![])
    }
}

/// The text of an exported file.
pub open spec fn entry_text(path: Seq<char>, content: Seq<char>) -> Seq<char> {
    "### Path: "@ + path + "\n```\n"@ + content + "\n```\n\n"@
}

/// The text of an excluded file.
pub open spec fn excluded_text(path: Seq<char>, reason: Seq<char>) -> Seq<char> {
    "- **Excluded:** `"@ + path + "` (Reason: "@ + reason + ")\n"@
}

/// What reading a file gave.
#[derive(Debug)]
pub enum ReadOutcome {
    Text(String),
    /// The file is not valid UTF-8.
    InvalidData,
    /// Another error, with its text.
    Error(String),
}

pub enum ReadView {
    Text(Seq<char>),
    InvalidData,
    Error(Seq<char>),
}

impl View for ReadOutcome {
    type V = ReadView;

    open spec fn view(&self) -> ReadView {
        match self {
            ReadOutcome::Text(t) => ReadView::Text(t@),
            ReadOutcome::InvalidData => ReadView::InvalidData,
            ReadOutcome::Error(e) => ReadView::Error(e@),
        }
    }
}

impl CategoryWriter {
    pub open spec fn fresh(c: Category) -> CategoryWriter {
        CategoryWriter { category: c, file_index: 1, current_lines: 0, open: false }
    }

    pub fn new(category: Category) -> (w: Self)
        ensures
            w == Self::fresh(category),
    {
        CategoryWriter { category, file_index: 1, current_lines: 0, open: false }
    }

    /// Opens a new part when one is due.
    pub fn prepare(&mut self, ops: &mut Vec<WriteOp>)
        requires
            old(self).file_index < usize::MAX,
        ensures
            *final(self) == ready(*old(self)).0,
            op_views(final(ops)@) == op_views(old(ops)@) + ready(*old(self)).1,
    {
        if !self.open || self.current_lines >= MAX_LINES_PER_FILE {
            if self.open {
                self.file_index = self.file_index + 1;
            }
            let idx = u64_to_decimal(self.file_index as u64);
            let mut file_name = concat3(self.category.prefix(), "_", idx.as_str());
            file_name.append(".md");
            let mut header = concat3("# RAG Export - ", self.category.title(), " (Part ");
            header.append(idx.as_str());
            header.append(")\n\n");
            self.open = true;
            self.current_lines = 2;
            let ghost prev = op_views(ops@);
            let op = WriteOp::Create { category: self.category, file_name, header };
            let ghost ov = op@;
            ops.push(op);
            assert(op_views(ops@) =~= prev + seq![ov]);
        } else {
            assert(op_views(ops@) =~= op_views(old(ops)@) + seq![]);
        }
    }
}

/// The writers of the five categories and the writes made so far.
#[derive(Debug)]
pub struct RagExport {
    pub writers: Vec<CategoryWriter>,
}

pub open spec fn category_at(i: int) -> Category {
    if i == 0 {
        Category::Logic
    } else if i == 1 {
        Category::Config
    } else if i == 2 {
        Category::Content
    } else if i == 3 {
        Category::Misc
    } else {
        Category::Excluded
    }
}

impl RagExport {
    /// The export's writers are one per category, in category order.
    pub open spec fn well_formed(&self) -> bool {
        &&& self.writers@.len() == 5
        &&& forall|i: int| 0 <= i < 5 ==> (#[trigger] self.writers@[i]).category == category_at(i)
    }

    pub fn new() -> (r: Self)
        ensures
            r.well_formed(),
            forall|i: int| 0 <= i < 5 ==> #[trigger] r.writers@[i] == CategoryWriter::fresh(category_at(i)),
    {
        let writers = vec![
            CategoryWriter::new(Category::Logic),
            CategoryWriter::new(Category::Config),
            CategoryWriter::new(Category::Content),
            CategoryWriter::new(Category::Misc),
            CategoryWriter::new(Category::Excluded),
        ];
        RagExport { writers }
    }

    /// The writes that add one file, read as `outcome`, to its category (or to
    /// the excluded list when it is not text).
    pub fn add_file(&mut self, path: &str, outcome: ReadOutcome) -> (ops: Vec<WriteOp>)
        requires
            old(self).well_formed(),
            forall|i: int| 0 <= i < 5 ==> (#[trigger] old(self).writers@[i]).file_index < usize::MAX,
            outcome@ matches ReadView::Text(t) ==> text_lines(t).len() <= usize::MAX - MAX_LINES_PER_FILE - 6,
        ensures
            final(self).well_formed(),
            ({
                let c = match outcome@ {
                    ReadView::Text(_) => category_of(path@),
                    _ => Category::Excluded,
                };
                let (w, opened) = ready(old(self).writers@[c.index()]);
                let (added, text) = match outcome@ {
                    ReadView::Text(t) => ((text_lines(t).len() + 6) as int, entry_text(path@, t)),
                    ReadView::InvalidData => (1int, excluded_text(path@, "Binary file / Invalid UTF-8"@)),
                    ReadView::Error(e) => (1int, excluded_text(path@, "Read error: "@ + e)),
                };
                &&& op_views(ops@) == opened + seq![OpView::Append { category: c, text }]
                &&& final(self).writers@ == old(self).writers@.update(
                    c.index(),
                    CategoryWriter { current_lines: (w.current_lines + added) as usize, ..w },
                )
            }),
    {
        let (c, added, text): (Category, usize, String) = match &outcome {
            ReadOutcome::Text(t) => {
                let cat = categorize(path);
                let chars = to_chars(t.as_str());
                let lines = split_lines(&chars);
                assert(lines@.map_values(|l: Vec<char>| l@).len() == lines@.len());
                let mut body = concat2("### Path: ", path);
                body.append("\n```\n");
                body.append(t.as_str());
                body.append("\n```\n\n");
                (cat, lines.len() + 6, body)
            },
            ReadOutcome::InvalidData => {
                let mut body = concat3("- **Excluded:** `", path, "` (Reason: ");
                body.append("Binary file / Invalid UTF-8");
                body.append(")\n");
                (Category::Excluded, 1, body)
            },
            ReadOutcome::Error(e) => {
                let mut body = concat3("- **Excluded:** `", path, "` (Reason: ");
                body.append("Read error: ");
                body.append(e.as_str());
                body.append(")\n");
                assert(body@ =~= excluded_text(path@, "Read error: "@ + e@));
                (Category::Excluded, 1, body)
            },
        };
        let idx: usize = match c {
            Category::Logic => 0,
            Category::Config => 1,
            Category::Content => 2,
            Category::Misc => 3,
            Category::Excluded => 4,
        };
        assert(idx == c.index());
        let mut ops: Vec<WriteOp> = Vec::new();
        let mut w = self.writers[idx];
        assert(w.category == c);
        w.prepare(&mut ops);
        w.current_lines = w.current_lines + added;
        let ghost prev = op_views(ops@);
        let op = WriteOp::Append { category: c, text };
        let ghost ov = op@;
        ops.push(op);
        assert(op_views(ops@) =~= prev + seq![ov]);
        self.writers.set(idx, w);
        ops
    }
}

} // verus!
