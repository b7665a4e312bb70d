//! The frame that every page of the site is set in, and the notices shown
//! above a page's content.

use vstd::prelude::*;
use vstd::string::StringExecFns;

verus! {

/// The document's head: title, icon, style sheet and scripts.
pub const HEADER: &'static str = "<head>
  <meta charset=\"utf-8\">
  <meta name=\"viewport\" content=\"width=device-width, initial-scale=1\">
  <title>Rob's Web Hub</title>
  <link rel=\"icon\" type=\"image/x-icon\" href=\"/static/favicon.ico\">
  <link rel=\"stylesheet\" href=\"https://cdn.jsdelivr.net/npm/@picocss/pico@1/css/pico.min.css\">
  <script src=\"https://unpkg.com/htmx.org@1.9.6\"></script>
</head>";

/// The navigation bar at the top of every page.
pub const NAVBAR: &'static str = "<nav class=\"container-fluid\">
      <ul>
        <li><strong>Rob's Web Hub</strong></li>
      </ul>
      <ul>
        <li><a href=\"/\">Home</a></li>
        <li><a href=\"/scores\">Scores</a></li>
        <li><a href=\"/about\">About</a></li>
      </ul>
    </nav>";

/// The line at the bottom of every page.
pub const FOOTER: &'static str = "<footer class=\"container\">
  <small>Rob's Web Hub</small>
</footer>";

/// A page with `main_div` as its content: document type, head, and a body
/// that holds the navigation bar and the content; the footer follows.
pub open spec fn page_of(main_div: Seq<char>) -> Seq<char> {
    "\n<!doctype html>\n<html lang=\"en\" data-theme=\"dark\">\n"@ + HEADER@ + "\n  <body>\n    "@
        + NAVBAR@ + "\n    "@ + main_div + "\n  </body>\n</html>\n"@ + FOOTER@ + "\n    "@
}

/// Sets `main_div` in the frame of the site.
pub fn compose_html(main_div: &str) -> (html: String)
    ensures
        html@ == page_of(main_div@),
{
    let mut html = String::from_str("\n<!doctype html>\n<html lang=\"en\" data-theme=\"dark\">\n");
    html.append(HEADER);
    html.append("\n  <body>\n    ");
    html.append(NAVBAR);
    html.append("\n    ");
    html.append(main_div);
    html.append("\n  </body>\n</html>\n");
    html.append(FOOTER);
    html.append("\n    ");
    html
}

/// The notices `messages`, one paragraph each.
pub open spec fn notices_of(messages: Seq<String>) -> Seq<char>
    decreases messages.len(),
{
    if messages.len() == 0 {
        Seq::empty()
    } else {
        notices_of(messages.drop_last()) + "<p><i><mark>"@ + messages.last()@
            + "</mark></i></p>\n"@
    }
}

/// The section that shows `messages` above a page's content.
pub open spec fn section_of(messages: Seq<String>) -> Seq<char> {
    "<section class=\"container\">\n"@ + notices_of(messages) + "</section>\n"@
}

/// Writes the section that shows the notices `flash_messages`, in their
/// order.
pub fn flash_messages_section(flash_messages: &Vec<String>) -> (error_html: String)
    ensures
        error_html@ == section_of(flash_messages@),
{
    let mut error_html = String::from_str("<section class=\"container\">\n");
    let mut i: usize = 0;
    assert(flash_messages@.take(0) == Seq::<String>::empty());
    while i < flash_messages.len()
        invariant
            i <= flash_messages.len(),
            error_html@ == "<section class=\"container\">\n"@ + notices_of(
                flash_messages@.take(i as int),
            ),
        decreases flash_messages.len() - i,
    {
        proof {
            let taken = flash_messages@.take(i + 1);
            assert(taken.drop_last() == flash_messages@.take(i as int));
            assert(taken.last() == flash_messages@[i as int]);
        }
        error_html.append("<p><i><mark>");
        error_html.append(flash_messages[i].as_str());
        error_html.append("</mark></i></p>\n");
        i += 1;
    }
    assert(flash_messages@.take(flash_messages.len() as int) == flash_messages@);
    error_html.append("</section>\n");
    error_html
}

} // verus!
