//! Typed enums for content metadata: format, kind, category, prerequisite
//! strength, with their canonical names.

use vstd::prelude::*;

use crate::text::{concat2, str_eq};

verus! {

/// Content format — determines which renderer to use.
#[derive(Debug, Clone, Copy, PartialEq, Eq, Hash, Structural)]
pub enum ContentFormat {
    Typst,
    Markdown,
    Html,
    Tex,
}

impl ContentFormat {
    /// Canonical lowercase name.
    pub open spec fn name(self) -> Seq<char> {
        match self {
            ContentFormat::Typst => "typst"@,
            ContentFormat::Markdown => "markdown"@,
            ContentFormat::Html => "html"@,
            ContentFormat::Tex => "tex"@,
        }
    }

    /// File extension of the main source file.
    pub open spec fn extension(self) -> Seq<char> {
        match self {
            ContentFormat::Typst => "typ"@,
            ContentFormat::Markdown => "md"@,
            ContentFormat::Html => "html"@,
            ContentFormat::Tex => "tex"@,
        }
    }

    /// The format a file extension denotes, if any.
    pub open spec fn of_extension(ext: Seq<char>) -> Option<ContentFormat> {
        if ext == "typ"@ {
            Some(ContentFormat::Typst)
        } else if ext == "md"@ {
            Some(ContentFormat::Markdown)
        } else if ext == "html"@ || ext == "htm"@ {
            Some(ContentFormat::Html)
        } else if ext == "tex"@ || ext == "latex"@ {
            Some(ContentFormat::Tex)
        } else {
            None
        }
    }

    /// The format a textual name denotes, if any (accepts aliases).
    pub open spec fn of_name(s: Seq<char>) -> Option<ContentFormat> {
        if s == "typst"@ {
            Some(ContentFormat::Typst)
        } else if s == "markdown"@ || s == "md"@ {
            Some(ContentFormat::Markdown)
        } else if s == "html"@ {
            Some(ContentFormat::Html)
        } else if s == "tex"@ || s == "latex"@ {
            Some(ContentFormat::Tex)
        } else {
            None
        }
    }

    pub fn as_str(self) -> (r: &'static str)
        ensures
            r@ == self.name(),
    {
        match self {
            ContentFormat::Typst => "typst",
            ContentFormat::Markdown => "markdown",
            ContentFormat::Html => "html",
            ContentFormat::Tex => "tex",
        }
    }

    pub fn file_extension(self) -> (r: &'static str)
        ensures
            r@ == self.extension(),
    {
        match self {
            ContentFormat::Typst => "typ",
            ContentFormat::Markdown => "md",
            ContentFormat::Html => "html",
            ContentFormat::Tex => "tex",
        }
    }

    pub fn from_extension(ext: &str) -> (r: Option<ContentFormat>)
        ensures
            r == ContentFormat::of_extension(ext@),
    {
        if str_eq(ext, "typ") {
            Some(ContentFormat::Typst)
        } else if str_eq(ext, "md") {
            Some(ContentFormat::Markdown)
        } else if str_eq(ext, "html") || str_eq(ext, "htm") {
            Some(ContentFormat::Html)
        } else if str_eq(ext, "tex") || str_eq(ext, "latex") {
            Some(ContentFormat::Tex)
        } else {
            None
        }
    }

    /// Parses a format name; the error names the rejected input.
    pub fn from_name(s: &str) -> (r: Result<ContentFormat, String>)
        ensures
            match r {
                Ok(f) => ContentFormat::of_name(s@) == Some(f),
                Err(e) => ContentFormat::of_name(s@).is_none() && e@
                    == "unknown content format: "@ + s@,
            },
    {
        if str_eq(s, "typst") {
            Ok(ContentFormat::Typst)
        } else if str_eq(s, "markdown") || str_eq(s, "md") {
            Ok(ContentFormat::Markdown)
        } else if str_eq(s, "html") {
            Ok(ContentFormat::Html)
        } else if str_eq(s, "tex") || str_eq(s, "latex") {
            Ok(ContentFormat::Tex)
        } else {
            Err(concat2("unknown content format: ", s))
        }
    }

    /// The canonical name as an owned string (what `Display` prints).
    pub fn to_string(&self) -> (r: String)
        ensures
            r@ == self.name(),
    {
        self.as_str().to_owned()
    }
}

impl std::str::FromStr for ContentFormat {
    type Err = String;

    fn from_str(s: &str) -> (r: Result<ContentFormat, String>)
        ensures
            match r {
                Ok(f) => ContentFormat::of_name(s@) == Some(f),
                Err(e) => ContentFormat::of_name(s@).is_none() && e@ == "unknown content format: "@ + s@,
            },
    {
        ContentFormat::from_name(s)
    }
}

/// Content kind — article, question, or answer.
#[derive(Debug, Clone, Copy, PartialEq, Eq, Hash, Structural)]
pub enum ContentKind {
    Article,
    Question,
    Answer,
}

impl ContentKind {
    pub open spec fn name(self) -> Seq<char> {
        match self {
            ContentKind::Article => "article"@,
            ContentKind::Question => "question"@,
            ContentKind::Answer => "answer"@,
        }
    }

    pub open spec fn of_name(s: Seq<char>) -> Option<ContentKind> {
        if s == "article"@ {
            Some(ContentKind::Article)
        } else if s == "question"@ {
            Some(ContentKind::Question)
        } else if s == "answer"@ {
            Some(ContentKind::Answer)
        } else {
            None
        }
    }

    pub fn as_str(self) -> (r: &'static str)
        ensures
            r@ == self.name(),
    {
        match self {
            ContentKind::Article => "article",
            ContentKind::Question => "question",
            ContentKind::Answer => "answer",
        }
    }

    pub fn from_name(s: &str) -> (r: Result<ContentKind, String>)
        ensures
            match r {
                Ok(k) => ContentKind::of_name(s@) == Some(k),
                Err(e) => ContentKind::of_name(s@).is_none() && e@ == "unknown content kind: "@
                    + s@,
            },
    {
        if str_eq(s, "article") {
            Ok(ContentKind::Article)
        } else if str_eq(s, "question") {
            Ok(ContentKind::Question)
        } else if str_eq(s, "answer") {
            Ok(ContentKind::Answer)
        } else {
            Err(concat2("unknown content kind: ", s))
        }
    }

    pub fn to_string(&self) -> (r: String)
        ensures
            r@ == self.name(),
    {
        self.as_str().to_owned()
    }
}

impl std::str::FromStr for ContentKind {
    type Err = String;

    fn from_str(s: &str) -> (r: Result<ContentKind, String>)
        ensures
            match r {
                Ok(k) => ContentKind::of_name(s@) == Some(k),
                Err(e) => ContentKind::of_name(s@).is_none() && e@ == "unknown content kind: "@ + s@,
            },
    {
        ContentKind::from_name(s)
    }
}

/// Article category.
#[derive(Debug, Clone, Copy, PartialEq, Eq, Hash, Structural)]
pub enum Category {
    General,
    Lecture,
    Paper,
    Review,
}

impl Category {
    pub open spec fn name(self) -> Seq<char> {
        match self {
            Category::General => "general"@,
            Category::Lecture => "lecture"@,
            Category::Paper => "paper"@,
            Category::Review => "review"@,
        }
    }

    pub open spec fn of_name(s: Seq<char>) -> Option<Category> {
        if s == "general"@ {
            Some(Category::General)
        } else if s == "lecture"@ {
            Some(Category::Lecture)
        } else if s == "paper"@ {
            Some(Category::Paper)
        } else if s == "review"@ {
            Some(Category::Review)
        } else {
            None
        }
    }

    pub fn as_str(self) -> (r: &'static str)
        ensures
            r@ == self.name(),
    {
        match self {
            Category::General => "general",
            Category::Lecture => "lecture",
            Category::Paper => "paper",
            Category::Review => "review",
        }
    }

    pub fn from_name(s: &str) -> (r: Result<Category, String>)
        ensures
            match r {
                Ok(c) => Category::of_name(s@) == Some(c),
                Err(e) => Category::of_name(s@).is_none() && e@ == "unknown category: "@ + s@,
            },
    {
        if str_eq(s, "general") {
            Ok(Category::General)
        } else if str_eq(s, "lecture") {
            Ok(Category::Lecture)
        } else if str_eq(s, "paper") {
            Ok(Category::Paper)
        } else if str_eq(s, "review") {
            Ok(Category::Review)
        } else {
            Err(concat2("unknown category: ", s))
        }
    }

    pub fn to_string(&self) -> (r: String)
        ensures
            r@ == self.name(),
    {
        self.as_str().to_owned()
    }
}

impl Default for Category {
    fn default() -> (r: Category)
        ensures
            r == Category::General,
    {
        Category::General
    }
}

impl std::str::FromStr for Category {
    type Err = String;

    fn from_str(s: &str) -> (r: Result<Category, String>)
        ensures
            match r {
                Ok(c) => Category::of_name(s@) == Some(c),
                Err(e) => Category::of_name(s@).is_none() && e@ == "unknown category: "@ + s@,
            },
    {
        Category::from_name(s)
    }
}

/// Prerequisite strength.
#[derive(Debug, Clone, Copy, PartialEq, Eq, Structural)]
pub enum PrereqType {
    Required,
    Recommended,
    Suggested,
}

impl PrereqType {
    pub open spec fn name(self) -> Seq<char> {
        match self {
            PrereqType::Required => "required"@,
            PrereqType::Recommended => "recommended"@,
            PrereqType::Suggested => "suggested"@,
        }
    }

    pub fn as_str(self) -> (r: &'static str)
        ensures
            r@ == self.name(),
    {
        match self {
            PrereqType::Required => "required",
            PrereqType::Recommended => "recommended",
            PrereqType::Suggested => "suggested",
        }
    }

    pub fn to_string(&self) -> (r: String)
        ensures
            r@ == self.name(),
    {
        self.as_str().to_owned()
    }
}

/// Facts about the literals used as names: their lengths and, where two
/// share a length, a position where they differ.
proof fn lemma_name_literals()
    ensures
        "typst"@.len() == 5, "markdown"@.len() == 8, "md"@.len() == 2,
        "html"@.len() == 4, "htm"@.len() == 3, "tex"@.len() == 3,
        "latex"@.len() == 5, "typ"@.len() == 3,
        "typst"@[0] == 't', "latex"@[0] == 'l',
        "tex"@[1] == 'e', "typ"@[1] == 'y', "htm"@[0] == 'h', "tex"@[0] == 't',
        "article"@.len() == 7, "question"@.len() == 8, "answer"@.len() == 6,
        "general"@.len() == 7, "lecture"@.len() == 7, "paper"@.len() == 5,
        "review"@.len() == 6, "general"@[0] == 'g', "lecture"@[0] == 'l',
        "required"@.len() == 8, "recommended"@.len() == 11, "suggested"@.len() == 9,
{
    reveal_strlit("typst");
    reveal_strlit("markdown");
    reveal_strlit("md");
    reveal_strlit("html");
    reveal_strlit("htm");
    reveal_strlit("tex");
    reveal_strlit("latex");
    reveal_strlit("typ");
    reveal_strlit("article");
    reveal_strlit("question");
    reveal_strlit("answer");
    reveal_strlit("general");
    reveal_strlit("lecture");
    reveal_strlit("paper");
    reveal_strlit("review");
    reveal_strlit("required");
    reveal_strlit("recommended");
    reveal_strlit("suggested");
}

/// Parsing the canonical name of a format gives the format back.
pub proof fn lemma_content_format_name_roundtrip(f: ContentFormat)
    ensures
        ContentFormat::of_name(f.name()) == Some(f),
{
    lemma_name_literals();
    assert("typst"@ != "markdown"@ && "typst"@ != "md"@ && "typst"@ != "html"@);
    assert("typst"@ != "tex"@ && "typst"@ != "latex"@);
    assert("markdown"@ != "md"@ && "markdown"@ != "html"@ && "markdown"@ != "tex"@);
    assert("markdown"@ != "latex"@ && "html"@ != "tex"@ && "html"@ != "latex"@);
    assert("typst"@[0] != "latex"@[0]);
    assert("tex"@ != "latex"@);
}

/// The extension of a format maps back to that format.
pub proof fn lemma_content_format_extension_roundtrip(f: ContentFormat)
    ensures
        ContentFormat::of_extension(f.extension()) == Some(f),
{
    lemma_name_literals();
    assert("tex"@[1] != "typ"@[1]);
    assert("tex"@ != "typ"@ && "md"@ != "typ"@ && "html"@ != "typ"@);
    assert("md"@ != "html"@ && "md"@ != "htm"@ && "md"@ != "tex"@ && "md"@ != "latex"@);
    assert("html"@ != "htm"@ && "html"@ != "tex"@ && "html"@ != "latex"@);
    assert("htm"@[0] != "tex"@[0]);
    assert("tex"@ != "htm"@);
}

/// Parsing the canonical name of a kind gives the kind back.
pub proof fn lemma_content_kind_name_roundtrip(k: ContentKind)
    ensures
        ContentKind::of_name(k.name()) == Some(k),
{
    lemma_name_literals();
    assert("article"@ != "question"@ && "article"@ != "answer"@ && "question"@ != "answer"@);
}

/// Parsing the canonical name of a category gives the category back.
pub proof fn lemma_category_name_roundtrip(c: Category)
    ensures
        Category::of_name(c.name()) == Some(c),
{
    lemma_name_literals();
    assert("general"@[0] != "lecture"@[0]);
    assert("general"@ != "lecture"@ && "general"@ != "paper"@ && "general"@ != "review"@);
    assert("lecture"@ != "paper"@ && "lecture"@ != "review"@ && "paper"@ != "review"@);
}

/// Distinct prerequisite strengths have distinct names.
pub proof fn lemma_prereq_type_names_distinct(a: PrereqType, b: PrereqType)
    ensures
        a.name() == b.name() ==> a == b,
{
    lemma_name_literals();
}

} // verus!
