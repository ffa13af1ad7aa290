use crate::text::{chars_of, words};
use vstd::prelude::*;

verus! {

/// Which kinds of token a scan marks, and the words it marks as keywords.
pub struct HighlightingOptions {
    numbers: bool,
    strings: bool,
    characters: bool,
    comments: bool,
    primary_keywords: Vec<String>,
    secondary_keywords: Vec<String>,
}

/// The rules of a scan as plain mathematical values.
pub struct HighlightingRules {
    pub numbers: bool,
    pub strings: bool,
    pub characters: bool,
    pub comments: bool,
    pub primary_keywords: Seq<Seq<char>>,
    pub secondary_keywords: Seq<Seq<char>>,
}

impl HighlightingRules {
    /// The rules that mark nothing.
    pub open spec fn plain() -> HighlightingRules {
        HighlightingRules {
            numbers: false,
            strings: false,
            characters: false,
            comments: false,
            primary_keywords: Seq::empty(),
            secondary_keywords: Seq::empty(),
        }
    }

    /// The rules for Rust source text.
    pub open spec fn rust() -> HighlightingRules {
        HighlightingRules {
            numbers: true,
            strings: true,
            characters: true,
            comments: true,
            primary_keywords: rust_primary_keywords(),
            secondary_keywords: rust_secondary_keywords(),
        }
    }
}

/// The words of Rust that a scan marks as primary keywords.
pub open spec fn rust_primary_keywords() -> Seq<Seq<char>> {
    seq![
        "as"@,
        "break"@,
        "const"@,
        "continue"@,
        "crate"@,
        "else"@,
        "enum"@,
        "extern"@,
        "false"@,
        "fn"@,
        "for"@,
        "if"@,
        "impl"@,
        "in"@,
        "let"@,
        "loop"@,
        "match"@,
        "mod"@,
        "move"@,
        "mut"@,
        "pub"@,
        "ref"@,
        "return"@,
        "self"@,
        "Self"@,
        "static"@,
        "struct"@,
        "super"@,
        "trait"@,
        "true"@,
        "type"@,
        "unsafe"@,
        "use"@,
        "where"@,
        "while"@,
        "dyn"@,
        "abstract"@,
        "become"@,
        "box"@,
        "do"@,
        "final"@,
        "macro"@,
        "override"@,
        "priv"@,
        "typeof"@,
        "unsized"@,
        "virtual"@,
        "yield"@,
        "async"@,
        "await"@,
        "try"@,
    ]
}

/// The names of Rust's primitive types, which a scan marks as secondary keywords.
pub open spec fn rust_secondary_keywords() -> Seq<Seq<char>> {
    seq![
        "bool"@,
        "char"@,
        "i8"@,
        "i16"@,
        "i32"@,
        "i64"@,
        "isize"@,
        "u8"@,
        "u16"@,
        "u32"@,
        "u64"@,
        "usize"@,
        "f32"@,
        "f64"@,
    ]
}

fn primary_keywords_of_rust() -> (list: Vec<String>)
    ensures
        words(list@) == rust_primary_keywords(),
{
    let mut list: Vec<String> = Vec::new();
    list.push(String::from_str("as"));
    list.push(String::from_str("break"));
    list.push(String::from_str("const"));
    list.push(String::from_str("continue"));
    list.push(String::from_str("crate"));
    list.push(String::from_str("else"));
    list.push(String::from_str("enum"));
    list.push(String::from_str("extern"));
    list.push(String::from_str("false"));
    list.push(String::from_str("fn"));
    list.push(String::from_str("for"));
    list.push(String::from_str("if"));
    list.push(String::from_str("impl"));
    list.push(String::from_str("in"));
    list.push(String::from_str("let"));
    list.push(String::from_str("loop"));
    list.push(String::from_str("match"));
    list.push(String::from_str("mod"));
    list.push(String::from_str("move"));
    list.push(String::from_str("mut"));
    list.push(String::from_str("pub"));
    list.push(String::from_str("ref"));
    list.push(String::from_str("return"));
    list.push(String::from_str("self"));
    list.push(String::from_str("Self"));
    list.push(String::from_str("static"));
    list.push(String::from_str("struct"));
    list.push(String::from_str("super"));
    list.push(String::from_str("trait"));
    list.push(String::from_str("true"));
    list.push(String::from_str("type"));
    list.push(String::from_str("unsafe"));
    list.push(String::from_str("use"));
    list.push(String::from_str("where"));
    list.push(String::from_str("while"));
    list.push(String::from_str("dyn"));
    list.push(String::from_str("abstract"));
    list.push(String::from_str("become"));
    list.push(String::from_str("box"));
    list.push(String::from_str("do"));
    list.push(String::from_str("final"));
    list.push(String::from_str("macro"));
    list.push(String::from_str("override"));
    list.push(String::from_str("priv"));
    list.push(String::from_str("typeof"));
    list.push(String::from_str("unsized"));
    list.push(String::from_str("virtual"));
    list.push(String::from_str("yield"));
    list.push(String::from_str("async"));
    list.push(String::from_str("await"));
    list.push(String::from_str("try"));
    assert(words(list@) =~= rust_primary_keywords());
    list
}

fn secondary_keywords_of_rust() -> (list: Vec<String>)
    ensures
        words(list@) == rust_secondary_keywords(),
{
    let mut list: Vec<String> = Vec::new();
    list.push(String::from_str("bool"));
    list.push(String::from_str("char"));
    list.push(String::from_str("i8"));
    list.push(String::from_str("i16"));
    list.push(String::from_str("i32"));
    list.push(String::from_str("i64"));
    list.push(String::from_str("isize"));
    list.push(String::from_str("u8"));
    list.push(String::from_str("u16"));
    list.push(String::from_str("u32"));
    list.push(String::from_str("u64"));
    list.push(String::from_str("usize"));
    list.push(String::from_str("f32"));
    list.push(String::from_str("f64"));
    assert(words(list@) =~= rust_secondary_keywords());
    list
}

impl View for HighlightingOptions {
    type V = HighlightingRules;

    closed spec fn view(&self) -> HighlightingRules {
        HighlightingRules {
            numbers: self.numbers,
            strings: self.strings,
            characters: self.characters,
            comments: self.comments,
            primary_keywords: words(self.primary_keywords@),
            secondary_keywords: words(self.secondary_keywords@),
        }
    }
}

impl Default for HighlightingOptions {
    fn default() -> (opts: HighlightingOptions)
        ensures
            opts@ == HighlightingRules::plain(),
    {
        let opts = HighlightingOptions {
            numbers: false,
            strings: false,
            characters: false,
            comments: false,
            primary_keywords: Vec::new(),
            secondary_keywords: Vec::new(),
        };
        assert(words(opts.primary_keywords@) =~= Seq::empty());
        assert(words(opts.secondary_keywords@) =~= Seq::empty());
        opts
    }
}

impl HighlightingOptions {
    /// Rules that mark the kinds that are switched on and the given keywords.
    pub fn new(
        numbers: bool,
        strings: bool,
        characters: bool,
        comments: bool,
        primary_keywords: Vec<String>,
        secondary_keywords: Vec<String>,
    ) -> (opts: HighlightingOptions)
        ensures
            opts@ == (HighlightingRules {
                numbers,
                strings,
                characters,
                comments,
                primary_keywords: words(primary_keywords@),
                secondary_keywords: words(secondary_keywords@),
            }),
    {
        HighlightingOptions {
            numbers,
            strings,
            characters,
            comments,
            primary_keywords,
            secondary_keywords,
        }
    }

    /// Whether numbers are marked.
    pub fn numbers(&self) -> (on: bool)
        ensures
            on == self@.numbers,
    {
        self.numbers
    }

    /// Whether string literals are marked.
    pub fn strings(&self) -> (on: bool)
        ensures
            on == self@.strings,
    {
        self.strings
    }

    /// Whether character literals are marked.
    pub fn characters(&self) -> (on: bool)
        ensures
            on == self@.characters,
    {
        self.characters
    }

    /// Whether comments are marked.
    pub fn comments(&self) -> (on: bool)
        ensures
            on == self@.comments,
    {
        self.comments
    }

    /// The words marked as primary keywords, in the order in which they are tried.
    pub fn primary_keywords(&self) -> (list: &Vec<String>)
        ensures
            words(list@) == self@.primary_keywords,
    {
        &self.primary_keywords
    }

    /// The words marked as secondary keywords, in the order in which they are tried.
    pub fn secondary_keywords(&self) -> (list: &Vec<String>)
        ensures
            words(list@) == self@.secondary_keywords,
    {
        &self.secondary_keywords
    }
}

/// The language profile of a file: its name and the rules of its scan.
pub struct FileType {
    name: String,
    hl_opts: HighlightingOptions,
}

/// A language profile as plain mathematical values.
pub struct FileTypeView {
    pub name: Seq<char>,
    pub rules: HighlightingRules,
}

/// Whether a file of this name holds Rust source text: the name ends in `.rs`.
pub open spec fn is_rust_file_name(file_name: Seq<char>) -> bool {
    let len = file_name.len() as int;
    &&& len >= 3
    &&& file_name[len - 3] == '.'
    &&& file_name[len - 2] == 'r'
    &&& file_name[len - 1] == 's'
}

impl FileTypeView {
    /// The profile of files that no named profile claims.
    pub open spec fn unknown() -> FileTypeView {
        FileTypeView { name: "No filetype"@, rules: HighlightingRules::plain() }
    }

    /// The profile of a file, by the extension of its name.
    pub open spec fn of(file_name: Seq<char>) -> FileTypeView {
        if is_rust_file_name(file_name) {
            FileTypeView { name: "Rust"@, rules: HighlightingRules::rust() }
        } else {
            FileTypeView::unknown()
        }
    }
}

/// The profile of a file has the name of the unknown profile exactly where no
/// named profile claims the file: the names of the named profiles differ from it.
pub proof fn lemma_unknown_profile_is_told_apart(file_name: Seq<char>)
    ensures
        FileTypeView::of(file_name).name == FileTypeView::unknown().name <==> !is_rust_file_name(
            file_name,
        ),
{
    reveal_strlit("Rust");
    reveal_strlit("No filetype");
    assert("Rust"@.len() != "No filetype"@.len());
}

impl View for FileType {
    type V = FileTypeView;

    closed spec fn view(&self) -> FileTypeView {
        FileTypeView { name: self.name@, rules: self.hl_opts@ }
    }
}

impl Default for FileType {
    fn default() -> (file_type: FileType)
        ensures
            file_type@ == FileTypeView::unknown(),
    {
        FileType { name: String::from_str("No filetype"), hl_opts: HighlightingOptions::default() }
    }
}

impl FileType {
    /// The name of the profile.
    pub fn name(&self) -> (name: String)
        ensures
            name@ == self@.name,
    {
        self.name.clone()
    }

    /// The rules of the profile's scan.
    pub fn highlighting_options(&self) -> (opts: &HighlightingOptions)
        ensures
            opts@ == self@.rules,
    {
        &self.hl_opts
    }

    /// The profile of the file called `file_name`.
    pub fn from(file_name: &str) -> (file_type: FileType)
        ensures
            file_type@ == FileTypeView::of(file_name@),
    {
        let chars = chars_of(file_name);
        let len = chars.len();
        if len >= 3 && chars[len - 3] == '.' && chars[len - 2] == 'r' && chars[len - 1] == 's' {
            FileType {
                name: String::from_str("Rust"),
                hl_opts: HighlightingOptions {
                    numbers: true,
                    strings: true,
                    characters: true,
                    comments: true,
                    primary_keywords: primary_keywords_of_rust(),
                    secondary_keywords: secondary_keywords_of_rust(),
                },
            }
        } else {
            FileType::default()
        }
    }
}

} // verus!
