//! Command-line configuration of the proxy: its usage text, the options it
//! takes, and the address and thread count its web interface runs with.

use vstd::prelude::*;
use crate::text::{append_str, decimal, decimal_string};

verus! {

/// The options of the proxy, as read from its command line.
pub struct Args {
    pub flag_port: i32,
    pub flag_webui_addr: String,
    pub flag_webui_port: i32,
    pub flag_webui_threads: usize,
    pub flag_config_dir: String,
}

/// The home directory: the value of the `HOME` variable where it is set,
/// `/tmp` where it is not.
pub fn home_dir(home_var: Option<String>) -> (dir: String)
    ensures
        match home_var {
            Some(h) => dir == h,
            None => dir@ == seq!['/', 't', 'm', 'p'],
        },
{
    match home_var {
        Some(h) => h,
        None => {
            let mut dir = String::new();
            append_str(&mut dir, "/tmp");
            proof {
                reveal_strlit("/tmp");
                assert(dir@ =~= seq!['/', 't', 'm', 'p']);
            }
            dir
        },
    }
}

/// The head of the usage text: the program's name and its forms of call.
pub open spec fn usage_intro() -> Seq<char> {
    "
mitm

Usage:
  mitm [--port=<p>] [--webui-addr=<wa>] [--webui-port=<wp>] [--webui-threads=<wt>]
  mitm (-h | --help)
  mitm --version

Options:
"@
}

/// The usage line of the proxy port option.
pub open spec fn port_option() -> Seq<char> {
    "  --port=<p>            bind proxy port [default: 8889].\n"@
}

/// The usage line of the web interface address option.
pub open spec fn webui_addr_option() -> Seq<char> {
    "  --webui-addr=<wa>     bind webui port [default: 0.0.0.0].\n"@
}

/// The usage line of the web interface port option.
pub open spec fn webui_port_option() -> Seq<char> {
    "  --webui-port=<wp>     bind webui port [default: 8899].\n"@
}

/// The usage line of the web interface threads option.
pub open spec fn webui_threads_option() -> Seq<char> {
    "  --webui-threads=<wt>  bind webui port [default: 2].\n"@
}

/// The start of the usage line of the configuration directory option, up to
/// its default.
pub open spec fn config_dir_option_head() -> Seq<char> {
    "  --config-dir=<cd>     config save dir [default: "@
}

/// The usage text before the home directory.
pub open spec fn usage_head() -> Seq<char> {
    usage_intro() + port_option() + webui_addr_option() + webui_port_option() + webui_threads_option()
        + config_dir_option_head()
}

/// The usage text after the home directory.
pub open spec fn usage_tail() -> Seq<char> {
    "/.mitm].
  -h --help             Show this screen.
  --version             Show version.
"@
}

/// The usage text of the proxy, whose default configuration directory is
/// `.mitm` in the home directory `home`.
pub fn usage(home: &str) -> (text: String)
    ensures
        text@ == usage_head() + home@ + usage_tail(),
{
    let mut text = String::new();
    append_str(&mut text, "
mitm

Usage:
  mitm [--port=<p>] [--webui-addr=<wa>] [--webui-port=<wp>] [--webui-threads=<wt>]
  mitm (-h | --help)
  mitm --version

Options:
");
    append_str(&mut text, "  --port=<p>            bind proxy port [default: 8889].\n");
    append_str(&mut text, "  --webui-addr=<wa>     bind webui port [default: 0.0.0.0].\n");
    append_str(&mut text, "  --webui-port=<wp>     bind webui port [default: 8899].\n");
    append_str(&mut text, "  --webui-threads=<wt>  bind webui port [default: 2].\n");
    append_str(&mut text, "  --config-dir=<cd>     config save dir [default: ");
    append_str(&mut text, home);
    append_str(&mut text, "/.mitm].
  -h --help             Show this screen.
  --version             Show version.
");
    assert(text@ =~= usage_head() + home@ + usage_tail());
    text
}

/// `piece` occurs in `text`.
pub open spec fn occurs_in(piece: Seq<char>, text: Seq<char>) -> bool {
    exists|i: int| 0 <= i && i + piece.len() <= text.len() && #[trigger] text.subrange(i, i + piece.len()) == piece
}

proof fn lemma_occurs_between(a: Seq<char>, piece: Seq<char>, b: Seq<char>)
    ensures
        occurs_in(piece, a + piece + b),
{
    let text = a + piece + b;
    assert(text.subrange(a.len() as int, a.len() + piece.len() as int) =~= piece);
}

/// Law: the usage text, from which the options' defaults are read, gives
/// the proxy port 8889, the web interface address 0.0.0.0, the web interface
/// port 8899, 2 web interface threads, and the directory `.mitm` in the home
/// directory for the configuration.
pub proof fn law_usage_defaults(home: Seq<char>)
    ensures
        occurs_in("  --port=<p>            bind proxy port [default: 8889].\n"@, usage_head() + home + usage_tail()),
        occurs_in("  --webui-addr=<wa>     bind webui port [default: 0.0.0.0].\n"@, usage_head() + home + usage_tail()),
        occurs_in("  --webui-port=<wp>     bind webui port [default: 8899].\n"@, usage_head() + home + usage_tail()),
        occurs_in("  --webui-threads=<wt>  bind webui port [default: 2].\n"@, usage_head() + home + usage_tail()),
        occurs_in("[default: "@ + home + "/.mitm]."@, usage_head() + home + usage_tail()),
{
    let text = usage_head() + home + usage_tail();
    let i = usage_intro();
    let p = port_option();
    let a = webui_addr_option();
    let w = webui_port_option();
    let t = webui_threads_option();
    let c = config_dir_option_head();
    lemma_occurs_between(i, p, a + w + t + c + home + usage_tail());
    assert(i + p + (a + w + t + c + home + usage_tail()) =~= text);
    lemma_occurs_between(i + p, a, w + t + c + home + usage_tail());
    assert(i + p + a + (w + t + c + home + usage_tail()) =~= text);
    lemma_occurs_between(i + p + a, w, t + c + home + usage_tail());
    assert(i + p + a + w + (t + c + home + usage_tail()) =~= text);
    lemma_occurs_between(i + p + a + w, t, c + home + usage_tail());
    assert(i + p + a + w + t + (c + home + usage_tail()) =~= text);
    reveal_strlit("  --config-dir=<cd>     config save dir [default: ");
    reveal_strlit("[default: ");
    reveal_strlit("/.mitm].");
    reveal_strlit("/.mitm].\n  -h --help             Show this screen.\n  --version             Show version.\n");
    let c0 = c.subrange(0, c.len() - 10);
    let tl = usage_tail();
    let piece = "[default: "@ + home + "/.mitm]."@;
    assert(c =~= c0 + "[default: "@);
    assert(tl =~= "/.mitm]."@ + tl.subrange(8, tl.len() as int));
    assert(i + p + a + w + t + c0 + piece + tl.subrange(8, tl.len() as int) =~= text);
    lemma_occurs_between(i + p + a + w + t + c0, piece, tl.subrange(8, tl.len() as int));
}

/// Where and how the proxy's web interface runs.
pub struct WebUiSettings {
    /// The address to listen on, `host:port`.
    pub address: String,
    /// The number of threads that serve requests.
    pub threads: usize,
}

/// The settings of the web interface: it listens on the configured host and
/// port, written `host:port`, with the configured number of threads.
pub fn webui_settings(args: &Args) -> (settings: WebUiSettings)
    ensures
        settings.address@ == args.flag_webui_addr@ + seq![':'] + decimal(args.flag_webui_port as int),
        settings.threads == args.flag_webui_threads,
{
    let mut address = String::new();
    append_str(&mut address, args.flag_webui_addr.as_str());
    crate::text::push_char(&mut address, ':');
    let port = decimal_string(args.flag_webui_port as i64);
    append_str(&mut address, port.as_str());
    assert(address@ =~= args.flag_webui_addr@ + seq![':'] + decimal(args.flag_webui_port as int));
    WebUiSettings { address, threads: args.flag_webui_threads }
}

} // verus!
