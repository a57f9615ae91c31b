//! Text filters for the rendering layer.

use vstd::prelude::*;
use crate::text::chars_of;

verus! {

/// `text` with every line feed turned into an HTML line break.
pub open spec fn with_line_breaks(text: Seq<char>) -> Seq<char>
    decreases text.len(),
{
    if text.len() == 0 {
        Seq::empty()
    } else {
        with_line_breaks(text.drop_last()) + if text.last() == '\n' {
            seq!['<', 'b', 'r', ' ', '/', '>']
        } else {
            seq![text.last()]
        }
    }
}

/// Turns the line feeds of `text` into HTML line breaks.
pub fn ansi_to_html(text: &str) -> (html: String)
    ensures
        html@ == with_line_breaks(text@),
{
    let chars = chars_of(text);
    let mut html = String::new();
    let mut i: usize = 0;
    proof {
        assert(text@.take(0) =~= Seq::<char>::empty());
    }
    while i < chars.len()
        invariant
            i <= chars.len(),
            chars@ == text@,
            html@ == with_line_breaks(text@.take(i as int)),
        decreases chars.len() - i,
    {
        let c = chars[i];
        let ghost before = html@;
        proof {
            assert(text@.take(i + 1).drop_last() =~= text@.take(i as int));
            assert(text@.take(i + 1).last() == c);
        }
        if c == '\n' {
            html.push('<');
            html.push('b');
            html.push('r');
            html.push(' ');
            html.push('/');
            html.push('>');
            proof {
                assert(html@ =~= before + seq!['<', 'b', 'r', ' ', '/', '>']);
            }
        } else {
            html.push(c);
            proof {
                assert(html@ =~= before + seq![c]);
            }
        }
        i += 1;
    }
    proof {
        assert(text@.take(i as int) =~= text@);
    }
    html
}

} // verus!
