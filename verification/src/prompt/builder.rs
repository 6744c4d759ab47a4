//! A builder for prompts written in Markdown.

use vstd::prelude::*;
use vstd::string::StringExecFns;

verus! {

/// A Markdown text under construction. Every method hands the builder
/// back, so that calls can be chained; its view is the text so far.
pub struct PromptBuilder {
    buffer: String,
}

impl View for PromptBuilder {
    type V = Seq<char>;

    closed spec fn view(&self) -> Seq<char> {
        self.buffer@
    }
}

/// `text` on a line of its own.
pub open spec fn line(text: Seq<char>) -> Seq<char> {
    text + "\n"@
}

/// `content` between code fences that name `language`.
pub open spec fn fenced(language: Seq<char>, content: Seq<char>) -> Seq<char> {
    line("```"@ + language) + line(content) + line("```"@)
}

impl Default for PromptBuilder {
    fn default() -> (builder: PromptBuilder)
        ensures
            builder@ == Seq::<char>::empty(),
    {
        PromptBuilder::new()
    }
}

impl PromptBuilder {
    /// A builder without text.
    pub fn new() -> (builder: PromptBuilder)
        ensures
            builder@ == Seq::<char>::empty(),
    {
        PromptBuilder { buffer: String::new() }
    }

    /// Adds a first-level heading.
    pub fn add_section_h1(self, text: &str) -> (builder: PromptBuilder)
        ensures
            builder@ == self@ + line("# "@ + text@),
    {
        let mut buffer = self.buffer;
        buffer.append("# ");
        buffer.append(text);
        buffer.append("\n");
        proof {
            assert(buffer@ =~= self@ + line("# "@ + text@));
        }
        PromptBuilder { buffer }
    }

    /// Adds a second-level heading.
    pub fn add_section_h2(self, text: &str) -> (builder: PromptBuilder)
        ensures
            builder@ == self@ + line("## "@ + text@),
    {
        let mut buffer = self.buffer;
        buffer.append("## ");
        buffer.append(text);
        buffer.append("\n");
        proof {
            assert(buffer@ =~= self@ + line("## "@ + text@));
        }
        PromptBuilder { buffer }
    }

    /// Adds a line of plain text.
    pub fn add_line(self, text: &str) -> (builder: PromptBuilder)
        ensures
            builder@ == self@ + line(text@),
    {
        let mut buffer = self.buffer;
        buffer.append(text);
        buffer.append("\n");
        proof {
            assert(buffer@ =~= self@ + line(text@));
        }
        PromptBuilder { buffer }
    }

    /// Adds a line in bold.
    pub fn add_line_bold(self, text: &str) -> (builder: PromptBuilder)
        ensures
            builder@ == self@ + line("**"@ + text@ + "**"@),
    {
        let mut buffer = self.buffer;
        buffer.append("**");
        buffer.append(text);
        buffer.append("**");
        buffer.append("\n");
        proof {
            assert(buffer@ =~= self@ + line("**"@ + text@ + "**"@));
        }
        PromptBuilder { buffer }
    }

    /// Adds a key in bold, a colon and the value, on one line.
    pub fn add_key_value(self, key: &str, value: &str) -> (builder: PromptBuilder)
        ensures
            builder@ == self@ + line("**"@ + key@ + "**: "@ + value@),
    {
        let mut buffer = self.buffer;
        buffer.append("**");
        buffer.append(key);
        buffer.append("**: ");
        buffer.append(value);
        buffer.append("\n");
        proof {
            assert(buffer@ =~= self@ + line("**"@ + key@ + "**: "@ + value@));
        }
        PromptBuilder { buffer }
    }

    /// Adds a block fenced as `markdown`.
    pub fn add_text_markdown(self, content: &str) -> (builder: PromptBuilder)
        ensures
            builder@ == self@ + fenced("markdown"@, content@),
    {
        let builder = self.add_line("```markdown").add_line(content).add_line("```");
        proof {
            reveal_strlit("```markdown");
            reveal_strlit("```");
            reveal_strlit("markdown");
            assert("```markdown"@ =~= "```"@ + "markdown"@);
            assert(builder@ =~= self@ + fenced("markdown"@, content@));
        }
        builder
    }

    /// Adds a block fenced as `json`.
    pub fn add_text_json(self, content: &str) -> (builder: PromptBuilder)
        ensures
            builder@ == self@ + fenced("json"@, content@),
    {
        let builder = self.add_line("```json").add_line(content).add_line("```");
        proof {
            reveal_strlit("```json");
            reveal_strlit("```");
            reveal_strlit("json");
            assert("```json"@ =~= "```"@ + "json"@);
            assert(builder@ =~= self@ + fenced("json"@, content@));
        }
        builder
    }

    /// Adds a block fenced as `yaml`.
    pub fn add_text_yaml(self, content: &str) -> (builder: PromptBuilder)
        ensures
            builder@ == self@ + fenced("yaml"@, content@),
    {
        let builder = self.add_line("```yaml").add_line(content).add_line("```");
        proof {
            reveal_strlit("```yaml");
            reveal_strlit("```");
            reveal_strlit("yaml");
            assert("```yaml"@ =~= "```"@ + "yaml"@);
            assert(builder@ =~= self@ + fenced("yaml"@, content@));
        }
        builder
    }

    /// Adds an empty line.
    pub fn add_blank_line(self) -> (builder: PromptBuilder)
        ensures
            builder@ == self@ + "\n"@,
    {
        let mut buffer = self.buffer;
        buffer.append("\n");
        PromptBuilder { buffer }
    }

    /// Adds a line of three dashes.
    pub fn add_delimiter(self) -> (builder: PromptBuilder)
        ensures
            builder@ == self@ + line("---"@),
    {
        self.add_line("---")
    }

    /// Adds a tab.
    pub fn indent(self) -> (builder: PromptBuilder)
        ensures
            builder@ == self@ + "\t"@,
    {
        let mut buffer = self.buffer;
        buffer.append("\t");
        PromptBuilder { buffer }
    }

    /// The text that was built.
    pub fn finalize(self) -> (text: String)
        ensures
            text@ == self@,
    {
        self.buffer
    }
}

} // verus!
