//! Admin page scaffolding: the HTML document wrapper and the navigation bar.
//!
//! The admin interface serves classless-CSS pages; every page is the same
//! document shell around a content block, with one navigation entry marked
//! current. Both builders are pure functions of their inputs, specified
//! character-for-character, so the server layer only wraps their output in
//! an HTTP response.

use vstd::prelude::*;
use vstd::string::StringExecFns;

verus! {

/// One navigation entry: a link, bolded and marked `aria-current` when it is
/// the active page.
pub open spec fn spec_nav_item(href: Seq<char>, label: Seq<char>, current: bool) -> Seq<char> {
    if current {
        "<li><a href=\""@ + href + "\" aria-current=\"page\"><strong>"@ + label
            + "</strong></a></li>"@
    } else {
        "<li><a href=\""@ + href + "\">"@ + label + "</a></li>"@
    }
}

/// The whole navigation bar, with the entry named by `active` marked current.
pub open spec fn spec_nav_html(active: Seq<char>) -> Seq<char> {
    "<nav>\n        <ul><li><strong>Hi-Fi Control</strong></li></ul>\n        <ul>"@
        + spec_nav_item("/"@, "Dashboard"@, active == "dashboard"@) + "\n"@
        + spec_nav_item("/zones"@, "Zones"@, active == "zones"@) + "\n"@
        + spec_nav_item("/hqplayer"@, "HQPlayer"@, active == "hqplayer"@) + "\n"@
        + spec_nav_item("/lms"@, "LMS"@, active == "lms"@) + "\n"@
        + spec_nav_item("/settings"@, "Settings"@, active == "settings"@)
        + "</ul>\n    </nav>"@
}

/// The document shell: head with title and styles, header with the nav bar,
/// the content block, and the footer.
pub open spec fn spec_html_doc(title: Seq<char>, nav_active: Seq<char>, content: Seq<char>) -> Seq<
    char,
> {
    r#"<!DOCTYPE html>
<html lang="en" data-theme="dark">
<head>
    <meta charset="utf-8">
    <meta name="viewport" content="width=device-width, initial-scale=1">
    <title>"#@ + title + r#" - Unified Hi-Fi Control</title>
    <link rel="stylesheet" href="https://cdn.jsdelivr.net/npm/@picocss/pico@2/css/pico.min.css">
    <style>
        :root { --pico-font-size: 15px; }
        .status-ok { color: var(--pico-ins-color); }
        .status-err { color: var(--pico-del-color); }
        .zone-grid { display: grid; grid-template-columns: repeat(auto-fill, minmax(320px, 1fr)); gap: 1rem; }
        .controls { display: flex; gap: 0.5rem; margin-top: 0.5rem; }
        .controls button { margin: 0; padding: 0.5rem 1rem; }
        small { color: var(--pico-muted-color); }
    </style>
</head>
<body>
    <header class="container">
        "#@ + spec_nav_html(nav_active) + r#"
    </header>
    <main class="container">
        "#@ + content + r#"
    </main>
    <footer class="container">
        <small>Unified Hi-Fi Control (Rust) - Admin Interface</small>
    </footer>
</body>
</html>"#@
}

/// One navigation entry, executable.
fn nav_item(href: &str, label: &str, current: bool) -> (r: String)
    ensures
        r@ == spec_nav_item(href@, label@, current),
{
    let mut s = String::new();
    if current {
        s.append("<li><a href=\"");
        s.append(href);
        s.append("\" aria-current=\"page\"><strong>");
        s.append(label);
        s.append("</strong></a></li>");
    } else {
        s.append("<li><a href=\"");
        s.append(href);
        s.append("\">");
        s.append(label);
        s.append("</a></li>");
    }
    proof {
        assert(s@ =~= spec_nav_item(href@, label@, current));
    }
    s
}

/// Navigation HTML with the `active` entry marked current.
pub fn nav_html(active: &str) -> (r: String)
    ensures
        r@ == spec_nav_html(active@),
{
    let active_s = active.to_owned();
    let mut s = String::new();
    s.append("<nav>\n        <ul><li><strong>Hi-Fi Control</strong></li></ul>\n        <ul>");
    let item = nav_item("/", "Dashboard", active_s == "dashboard".to_owned());
    s.append(item.as_str());
    s.append("\n");
    let item = nav_item("/zones", "Zones", active_s == "zones".to_owned());
    s.append(item.as_str());
    s.append("\n");
    let item = nav_item("/hqplayer", "HQPlayer", active_s == "hqplayer".to_owned());
    s.append(item.as_str());
    s.append("\n");
    let item = nav_item("/lms", "LMS", active_s == "lms".to_owned());
    s.append(item.as_str());
    s.append("\n");
    let item = nav_item("/settings", "Settings", active_s == "settings".to_owned());
    s.append(item.as_str());
    s.append("</ul>\n    </nav>");
    proof {
        assert(s@ =~= spec_nav_html(active@));
    }
    s
}

/// HTML document wrapper: title, navigation state, and the page content.
pub fn html_doc(title: &str, nav_active: &str, content: &str) -> (r: String)
    ensures
        r@ == spec_html_doc(title@, nav_active@, content@),
{
    let nav = nav_html(nav_active);
    let mut s = String::new();
    s.append(
        r#"<!DOCTYPE html>
<html lang="en" data-theme="dark">
<head>
    <meta charset="utf-8">
    <meta name="viewport" content="width=device-width, initial-scale=1">
    <title>"#,
    );
    s.append(title);
    s.append(
        r#" - Unified Hi-Fi Control</title>
    <link rel="stylesheet" href="https://cdn.jsdelivr.net/npm/@picocss/pico@2/css/pico.min.css">
    <style>
        :root { --pico-font-size: 15px; }
        .status-ok { color: var(--pico-ins-color); }
        .status-err { color: var(--pico-del-color); }
        .zone-grid { display: grid; grid-template-columns: repeat(auto-fill, minmax(320px, 1fr)); gap: 1rem; }
        .controls { display: flex; gap: 0.5rem; margin-top: 0.5rem; }
        .controls button { margin: 0; padding: 0.5rem 1rem; }
        small { color: var(--pico-muted-color); }
    </style>
</head>
<body>
    <header class="container">
        "#,
    );
    s.append(nav.as_str());
    s.append(
        r#"
    </header>
    <main class="container">
        "#,
    );
    s.append(content);
    s.append(
        r#"
    </main>
    <footer class="container">
        <small>Unified Hi-Fi Control (Rust) - Admin Interface</small>
    </footer>
</body>
</html>"#,
    );
    proof {
        assert(s@ =~= spec_html_doc(title@, nav_active@, content@));
    }
    s
}

} // verus!
