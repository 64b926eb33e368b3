//! Exporters for detection results.
//!
//! The rendering of results to an output stream is thin glue around the
//! core and lives with the binary; the escaping of text for markup output
//! is pure and verified here.

use vstd::prelude::*;

verus! {

use crate::text::str_chars;

/// Human-readable console output.
pub struct ConsoleExporter;

/// JSON output with structured data.
pub struct JsonExporter;

/// XML output for tool integration.
pub struct XmlExporter;

/// The expansion of one character under XML escaping.
pub open spec fn xml_escape_char(c: char) -> Seq<char> {
    if c == '&' {
        "&amp;"@
    } else if c == '<' {
        "&lt;"@
    } else if c == '>' {
        "&gt;"@
    } else if c == '"' {
        "&quot;"@
    } else if c == '\'' {
        "&apos;"@
    } else {
        seq![c]
    }
}

/// XML escaping of a whole text.
pub open spec fn xml_escape_spec(s: Seq<char>) -> Seq<char>
    decreases s.len(),
{
    if s.len() == 0 {
        Seq::empty()
    } else {
        xml_escape_spec(s.drop_last()) + xml_escape_char(s.last())
    }
}

impl XmlExporter {
    /// Escape the five special XML characters in a text.
    pub fn escape_xml(s: &str) -> (r: String)
        ensures
            r@ == xml_escape_spec(s@),
    {
        let chars = str_chars(s);
        let n = chars.len();
        let mut out: Vec<char> = Vec::new();
        proof {
            reveal_strlit("&amp;");
            reveal_strlit("&lt;");
            reveal_strlit("&gt;");
            reveal_strlit("&quot;");
            reveal_strlit("&apos;");
        }
        let mut i: usize = 0;
        while i < n
            invariant
                0 <= i <= n == chars@.len(),
                chars@ == s@,
                out@ == xml_escape_spec(s@.take(i as int)),
            decreases n - i,
        {
            proof {
                reveal_strlit("&amp;");
                reveal_strlit("&lt;");
                reveal_strlit("&gt;");
                reveal_strlit("&quot;");
                reveal_strlit("&apos;");
                assert(s@.take(i + 1).drop_last() =~= s@.take(i as int));
            }
            let ghost before = out@;
            let c = chars[i];
            if c == '&' {
                out.push('&');
                out.push('a');
                out.push('m');
                out.push('p');
                out.push(';');
                proof {
                    assert(out@ =~= before + "&amp;"@);
                }
            } else if c == '<' {
                out.push('&');
                out.push('l');
                out.push('t');
                out.push(';');
                proof {
                    assert(out@ =~= before + "&lt;"@);
                }
            } else if c == '>' {
                out.push('&');
                out.push('g');
                out.push('t');
                out.push(';');
                proof {
                    assert(out@ =~= before + "&gt;"@);
                }
            } else if c == '"' {
                out.push('&');
                out.push('q');
                out.push('u');
                out.push('o');
                out.push('t');
                out.push(';');
                proof {
                    assert(out@ =~= before + "&quot;"@);
                }
            } else if c == '\'' {
                out.push('&');
                out.push('a');
                out.push('p');
                out.push('o');
                out.push('s');
                out.push(';');
                proof {
                    assert(out@ =~= before + "&apos;"@);
                }
            } else {
                out.push(c);
                proof {
                    assert(out@ =~= before + seq![c]);
                }
            }
            i = i + 1;
        }
        proof {
            assert(s@.take(n as int) =~= s@);
        }
        crate::text::chars_to_string(&out)
    }
}

} // verus!
