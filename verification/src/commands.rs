//! The console's command language: a line is split into white-space
//! separated words, and the first word names the command. Parsing decides
//! which command a line asks for, or which usage error answers it; carrying
//! the command out is left to the machine that runs the console.
use vstd::prelude::*;
use crate::bootloader::{has_prefix, is_http_url, Resource, ResourceView};
use crate::error::X86Error;
use crate::image::{is_white_space, white_space, ImageKind};

verus! {

/// The white-space separated words of `s`, in order.
pub open spec fn words(s: Seq<char>) -> Seq<Seq<char>>
    decreases s.len(),
{
    if s.len() == 0 {
        seq![]
    } else {
        let front = words(s.drop_last());
        if is_white_space(s.last()) {
            front
        } else if s.len() > 1 && !is_white_space(s[s.len() - 2]) {
            front.update(front.len() - 1, front.last().push(s.last()))
        } else {
            front.push(seq![s.last()])
        }
    }
}

/// The text of each span `(start, end)` of `s`.
pub open spec fn spans_text(s: Seq<char>, spans: Seq<(usize, usize)>) -> Seq<Seq<char>> {
    spans.map_values(|p: (usize, usize)| s.subrange(p.0 as int, p.1 as int))
}

/// Where the words of `s` start and end.
fn word_spans(s: &str) -> (w: Vec<(usize, usize)>)
    ensures
        spans_text(s@, w@) == words(s@),
        forall|k: int| 0 <= k < w@.len() ==> w@[k].0 <= #[trigger] w@[k].1 <= s@.len(),
{
    let n = s.unicode_len();
    let mut w: Vec<(usize, usize)> = Vec::new();
    let mut i: usize = 0;
    let mut in_word = false;
    while i < n
        invariant
            i <= n,
            n == s@.len(),
            spans_text(s@, w@) == words(s@.subrange(0, i as int)),
            forall|k: int| 0 <= k < w@.len() ==> w@[k].0 <= #[trigger] w@[k].1 <= i,
            in_word == (i > 0 && !is_white_space(s@[i - 1])),
            in_word ==> w@.len() > 0 && w@.last().1 == i,
        decreases n - i,
    {
        let c = s.get_char(i);
        let ghost pre = s@.subrange(0, i as int);
        let ghost next = s@.subrange(0, i + 1);
        assert(next.drop_last() =~= pre);
        assert(next.last() == c);
        let ghost old_w = w@;
        if white_space(c) {
            in_word = false;
            assert(spans_text(s@, w@) == words(next));
        } else if in_word {
            let k = w.len() - 1;
            let a = w[k].0;
            w.set(k, (a, i + 1));
            in_word = true;
            assert(s@.subrange(a as int, i + 1) =~= s@.subrange(a as int, i as int).push(c));
            assert(spans_text(s@, w@) =~= spans_text(s@, old_w).update(
                k as int,
                spans_text(s@, old_w).last().push(c),
            ));
        } else {
            w.push((i, i + 1));
            in_word = true;
            assert(s@.subrange(i as int, i + 1) =~= seq![c]);
            assert(spans_text(s@, w@) =~= spans_text(s@, old_w).push(seq![c]));
        }
        i = i + 1;
    }
    assert(s@.subrange(0, n as int) =~= s@);
    w
}

/// The word at `k` of `ws`, if there is one.
pub open spec fn word(ws: Seq<Seq<char>>, k: int) -> Option<Seq<char>> {
    if 0 <= k < ws.len() {
        Some(ws[k])
    } else {
        None
    }
}

/// The word at `k` of `s`, given its spans `w`.
fn word_at(s: &str, w: &Vec<(usize, usize)>, k: usize) -> (r: Option<String>)
    requires
        forall|j: int| 0 <= j < w@.len() ==> w@[j].0 <= #[trigger] w@[j].1 <= s@.len(),
    ensures
        match word(spans_text(s@, w@), k as int) {
            Some(t) => r matches Some(x) && x@ == t,
            None => r is None,
        },
{
    if k < w.len() {
        let (a, b) = w[k];
        Some(String::from_str(s.substring_char(a, b)))
    } else {
        None
    }
}

/// Whether `c` is an ASCII decimal digit.
pub open spec fn is_digit(c: char) -> bool {
    '0' <= c <= '9'
}

/// The number the decimal digits `d` write.
pub open spec fn digits_value(d: Seq<char>) -> nat
    decreases d.len(),
{
    if d.len() == 0 {
        0
    } else {
        digits_value(d.drop_last()) * 10 + (d.last() as nat - '0' as nat) as nat
    }
}

/// `t` without one leading `+`.
pub open spec fn unsigned_digits(t: Seq<char>) -> Seq<char> {
    if t.len() > 0 && t[0] == '+' {
        t.drop_first()
    } else {
        t
    }
}

/// Whether `d` is one or more decimal digits.
pub open spec fn all_digits(d: Seq<char>) -> bool {
    d.len() > 0 && forall|i: int| 0 <= i < d.len() ==> is_digit(#[trigger] d[i])
}

/// The number that `t` writes in decimal, as `str::parse` reads unsigned
/// integers: an optional `+`, then one or more digits and nothing else.
pub open spec fn decimal_value(t: Seq<char>) -> Option<nat> {
    if all_digits(unsigned_digits(t)) {
        Some(digits_value(unsigned_digits(t)))
    } else {
        None
    }
}

/// Whether `t` is a decimal number that fits in a `u64`.
pub open spec fn fits_u64(t: Seq<char>) -> bool {
    decimal_value(t) matches Some(v) && v <= u64::MAX
}

/// The text of the error that `str::parse::<u64>` gives for `t`.
pub uninterp spec fn parse_error_text(t: Seq<char>) -> Seq<char>;

/// Calls `str::parse::<u64>`. As its documentation says, it accepts an
/// optional `+` followed by decimal digits only, whose value must fit in a
/// `u64`; on success the value is returned, otherwise the error's text,
/// which is named and not spelled out here.
#[verifier::external_body]
fn parse_u64(t: &str) -> (r: Result<u64, String>)
    ensures
        r is Ok <==> fits_u64(t@),
        r matches Ok(n) ==> decimal_value(t@) == Some(n as nat),
        r matches Err(m) ==> m@ == parse_error_text(t@),
{
    match t.parse::<u64>() {
        Ok(n) => Ok(n),
        Err(e) => Err(e.to_string()),
    }
}

/// The value of the number `t`; meaningful where `fits_u64(t)`.
pub open spec fn u64_of(t: Seq<char>) -> u64 {
    decimal_value(t).unwrap() as u64
}

/// `ws` joined by single spaces.
pub open spec fn join_words(ws: Seq<Seq<char>>) -> Seq<char>
    decreases ws.len(),
{
    if ws.len() == 0 {
        seq![]
    } else if ws.len() == 1 {
        ws[0]
    } else {
        join_words(ws.drop_last()) + seq![' '] + ws.last()
    }
}

/// The words of `s` from the one at `from` on, joined by single spaces.
fn join_from(s: &str, w: &Vec<(usize, usize)>, from: usize) -> (r: String)
    requires
        from <= w@.len(),
        forall|j: int| 0 <= j < w@.len() ==> w@[j].0 <= #[trigger] w@[j].1 <= s@.len(),
    ensures
        r@ == join_words(spans_text(s@, w@).skip(from as int)),
{
    let ghost ws = spans_text(s@, w@);
    let mut r = String::new();
    if from == w.len() {
        assert(ws.skip(from as int) =~= Seq::<Seq<char>>::empty());
        return r;
    }
    let mut k: usize = from;
    while k < w.len()
        invariant
            from <= k <= w@.len(),
            from < w@.len(),
            ws == spans_text(s@, w@),
            forall|j: int| 0 <= j < w@.len() ==> w@[j].0 <= #[trigger] w@[j].1 <= s@.len(),
            r@ == join_words(ws.subrange(from as int, k as int)),
        decreases w@.len() - k,
    {
        let (a, b) = w[k];
        let ghost before = ws.subrange(from as int, k as int);
        let ghost after = ws.subrange(from as int, k + 1);
        assert(after.drop_last() =~= before);
        assert(after.last() == s@.subrange(a as int, b as int));
        let ghost r0 = r@;
        let piece = s.substring_char(a, b);
        if k > from {
            proof {
                reveal_strlit(" ");
            }
            r.append(" ");
            r.append(piece);
            assert(r@ =~= r0 + seq![' '] + piece@);
        } else {
            r.append(piece);
            assert(r@ =~= piece@);
        }
        k = k + 1;
    }
    assert(ws.subrange(from as int, w@.len() as int) =~= ws.skip(from as int));
    r
}

/// The command list that `help` shows.
pub const CONSOLE_HELP: &'static str = "Commands:\n  help                         Show this help\n  capabilities                Show native capabilities\n  info                        Show machine configuration and attached images\n  config ram <bytes>          Set guest RAM size\n  config vga <bytes>          Set VGA memory size\n  load bios <path>             Load BIOS image\n  load vga-bios <path>         Load VGA BIOS image\n  load disk <path>             Load raw disk image\n  load cdrom <path>            Load ISO/CD-ROM image\n  load state <path>            Load v86 saved state (.bin or .bin.zst)\n  load bootloader <path|url>   Load a bootloader from disk or HTTP(S)\n  checksum <kind>              Print SHA-256 for bios/vga-bios/disk/cdrom/bootloader/state\n  prepare                     Validate backend readiness\n  run                         Run the attached native backend\n  run-state [max_steps]       Restore and run the loaded v86 saved state\n  dump-screen <path.ppm>      Save the current guest VGA framebuffer as PPM\n  screen                      Render the guest screen directly in this terminal\n  type <text>                 Send text and Enter to the guest keyboard\n  quit                        Exit";

/// A console command with its arguments.
pub enum ConsoleCommand {
    /// An empty line.
    Nothing,
    /// `help`: show the command list.
    Help,
    /// `capabilities`: list what the library can do.
    Capabilities,
    /// `info`: show the configuration and the attached images.
    Info,
    /// `config ram <bytes>`.
    ConfigRam(u64),
    /// `config vga <bytes>`.
    ConfigVga(u64),
    /// `load bios|vga-bios|disk|cdrom <path>`: an image of that kind.
    Load(ImageKind, String),
    /// `load state <path>`: a saved state.
    LoadState(String),
    /// `load bootloader <path|url>`.
    LoadBootloader(Resource),
    /// `checksum <kind>`; the kind is empty when none is given.
    Checksum(String),
    /// `dump-screen <path.ppm>`.
    DumpScreen(String),
    /// `screen`: draw the guest screen.
    Screen,
    /// `type <text>`: the keystrokes to send, the words joined by single
    /// spaces and followed by Enter.
    Type(String),
    /// `prepare`: check that the backend is ready.
    Prepare,
    /// `run`.
    Run,
    /// `run-state [max_steps]`: run the loaded saved state for at most
    /// that many steps.
    RunState(u64),
    /// `quit` or `exit`.
    Quit,
}

/// What a `ConsoleCommand` holds.
pub enum ConsoleCommandView {
    Nothing,
    Help,
    Capabilities,
    Info,
    ConfigRam(u64),
    ConfigVga(u64),
    Load(ImageKind, Seq<char>),
    LoadState(Seq<char>),
    LoadBootloader(ResourceView),
    Checksum(Seq<char>),
    DumpScreen(Seq<char>),
    Screen,
    Type(Seq<char>),
    Prepare,
    Run,
    RunState(u64),
    Quit,
}

impl View for ConsoleCommand {
    type V = ConsoleCommandView;

    open spec fn view(&self) -> ConsoleCommandView {
        match self {
            ConsoleCommand::Nothing => ConsoleCommandView::Nothing,
            ConsoleCommand::Help => ConsoleCommandView::Help,
            ConsoleCommand::Capabilities => ConsoleCommandView::Capabilities,
            ConsoleCommand::Info => ConsoleCommandView::Info,
            ConsoleCommand::ConfigRam(n) => ConsoleCommandView::ConfigRam(*n),
            ConsoleCommand::ConfigVga(n) => ConsoleCommandView::ConfigVga(*n),
            ConsoleCommand::Load(k, p) => ConsoleCommandView::Load(*k, p@),
            ConsoleCommand::LoadState(p) => ConsoleCommandView::LoadState(p@),
            ConsoleCommand::LoadBootloader(r) => ConsoleCommandView::LoadBootloader(r@),
            ConsoleCommand::Checksum(k) => ConsoleCommandView::Checksum(k@),
            ConsoleCommand::DumpScreen(p) => ConsoleCommandView::DumpScreen(p@),
            ConsoleCommand::Screen => ConsoleCommandView::Screen,
            ConsoleCommand::Type(t) => ConsoleCommandView::Type(t@),
            ConsoleCommand::Prepare => ConsoleCommandView::Prepare,
            ConsoleCommand::Run => ConsoleCommandView::Run,
            ConsoleCommand::RunState(n) => ConsoleCommandView::RunState(*n),
            ConsoleCommand::Quit => ConsoleCommandView::Quit,
        }
    }
}

/// An error as the console reports it: the two kinds that parsing gives,
/// with their messages, and any other kind.
pub enum ConsoleErrorView {
    InvalidImage(Seq<char>),
    InvalidState(Seq<char>),
    Other,
}

/// What a parse result holds.
pub open spec fn outcome_view(r: Result<ConsoleCommand, X86Error>) -> Result<ConsoleCommandView, ConsoleErrorView> {
    match r {
        Ok(c) => Ok(c@),
        Err(X86Error::InvalidImage(m)) => Err(ConsoleErrorView::InvalidImage(m@)),
        Err(X86Error::InvalidState(m)) => Err(ConsoleErrorView::InvalidState(m@)),
        Err(_) => Err(ConsoleErrorView::Other),
    }
}

/// A usage error with the message `m`.
pub open spec fn usage(m: Seq<char>) -> Result<ConsoleCommandView, ConsoleErrorView> {
    Err(ConsoleErrorView::InvalidImage(m))
}

/// The resource that `load bootloader` reads: a URL where the source
/// starts with `http://` or `https://`, a local file otherwise.
pub open spec fn bootloader_source(t: Seq<char>) -> ResourceView {
    if is_http_url(t) {
        ResourceView::Url(t)
    } else {
        ResourceView::File(t)
    }
}

/// The message for `config` without `ram` or `vga`.
pub open spec fn config_usage() -> Seq<char> {
    "usage: config ram|vga <bytes>"@
}

/// The message for `load` without a known kind.
pub open spec fn load_usage() -> Seq<char> {
    "usage: load bios|vga-bios|disk|cdrom|state|bootloader <source>"@
}

/// The words `config ...` ask for.
pub open spec fn config_line(ws: Seq<Seq<char>>) -> Result<ConsoleCommandView, ConsoleErrorView> {
    if ws.len() > 1 && (ws[1] == "ram"@ || ws[1] == "vga"@) {
        if ws.len() < 3 {
            usage("missing numeric value"@)
        } else if !fits_u64(ws[2]) {
            usage("invalid number: "@ + parse_error_text(ws[2]))
        } else if ws[1] == "ram"@ {
            Ok(ConsoleCommandView::ConfigRam(u64_of(ws[2])))
        } else {
            Ok(ConsoleCommandView::ConfigVga(u64_of(ws[2])))
        }
    } else {
        usage(config_usage())
    }
}

/// The message for `load <kind>` without a source, for the kinds `load`
/// knows.
pub open spec fn missing_source(kind: Seq<char>) -> Option<Seq<char>> {
    if kind == "bios"@ {
        Some("missing BIOS path"@)
    } else if kind == "vga-bios"@ {
        Some("missing VGA BIOS path"@)
    } else if kind == "disk"@ {
        Some("missing disk path"@)
    } else if kind == "cdrom"@ {
        Some("missing CD-ROM path"@)
    } else if kind == "state"@ {
        Some("missing state path"@)
    } else if kind == "bootloader"@ {
        Some("missing bootloader path or URL"@)
    } else {
        None
    }
}

/// The command `load <kind> <source>` asks for, for a kind `load` knows.
pub open spec fn load_of(kind: Seq<char>, source: Seq<char>) -> ConsoleCommandView {
    if kind == "bios"@ {
        ConsoleCommandView::Load(ImageKind::Bios, source)
    } else if kind == "vga-bios"@ {
        ConsoleCommandView::Load(ImageKind::VgaBios, source)
    } else if kind == "disk"@ {
        ConsoleCommandView::Load(ImageKind::RawDisk, source)
    } else if kind == "cdrom"@ {
        ConsoleCommandView::Load(ImageKind::Iso9660, source)
    } else if kind == "state"@ {
        ConsoleCommandView::LoadState(source)
    } else {
        ConsoleCommandView::LoadBootloader(bootloader_source(source))
    }
}

/// The words `load ...` ask for.
pub open spec fn load_line(ws: Seq<Seq<char>>) -> Result<ConsoleCommandView, ConsoleErrorView> {
    if ws.len() < 2 || missing_source(ws[1]) is None {
        usage(load_usage())
    } else if ws.len() < 3 {
        usage(missing_source(ws[1]).unwrap())
    } else {
        Ok(load_of(ws[1], ws[2]))
    }
}

/// The steps `run-state` runs when no number is given.
pub const DEFAULT_MAX_STEPS: u64 = 100000;

/// The words `run-state ...` ask for, with or without a saved state loaded.
pub open spec fn run_state_line(ws: Seq<Seq<char>>, has_saved_state: bool) -> Result<ConsoleCommandView, ConsoleErrorView> {
    if !has_saved_state {
        Err(ConsoleErrorView::InvalidState("load a v86 saved state before run-state"@))
    } else if ws.len() < 2 {
        Ok(ConsoleCommandView::RunState(DEFAULT_MAX_STEPS))
    } else if fits_u64(ws[1]) {
        Ok(ConsoleCommandView::RunState(u64_of(ws[1])))
    } else {
        usage("invalid max_steps: "@ + parse_error_text(ws[1]))
    }
}

/// The command that the console line `line` asks for, or the error that
/// answers it; `has_saved_state` tells whether a saved state is loaded.
pub open spec fn console_command(line: Seq<char>, has_saved_state: bool) -> Result<ConsoleCommandView, ConsoleErrorView> {
    let ws = words(line);
    if ws.len() == 0 {
        Ok(ConsoleCommandView::Nothing)
    } else {
        let c = ws[0];
        if c == "help"@ {
            Ok(ConsoleCommandView::Help)
        } else if c == "capabilities"@ {
            Ok(ConsoleCommandView::Capabilities)
        } else if c == "info"@ {
            Ok(ConsoleCommandView::Info)
        } else if c == "config"@ {
            config_line(ws)
        } else if c == "load"@ {
            load_line(ws)
        } else if c == "checksum"@ {
            Ok(ConsoleCommandView::Checksum(if ws.len() > 1 { ws[1] } else { seq![] }))
        } else if c == "dump-screen"@ {
            if ws.len() > 1 {
                Ok(ConsoleCommandView::DumpScreen(ws[1]))
            } else {
                usage("usage: dump-screen <path.ppm>"@)
            }
        } else if c == "screen"@ {
            Ok(ConsoleCommandView::Screen)
        } else if c == "type"@ {
            Ok(ConsoleCommandView::Type(join_words(ws.skip(1)) + seq!['\n']))
        } else if c == "prepare"@ {
            Ok(ConsoleCommandView::Prepare)
        } else if c == "run"@ {
            Ok(ConsoleCommandView::Run)
        } else if c == "run-state"@ {
            run_state_line(ws, has_saved_state)
        } else if c == "quit"@ || c == "exit"@ {
            Ok(ConsoleCommandView::Quit)
        } else {
            usage("unknown command; type `help`"@)
        }
    }
}

/// Whether `w` is the word `lit`.
fn word_is(w: &Option<String>, lit: &str) -> (b: bool)
    ensures
        b == (w matches Some(x) && x@ == lit@),
{
    match w {
        Some(x) => x.eq(&String::from_str(lit)),
        None => false,
    }
}

/// The message `prefix` followed by `rest`, as a usage error.
fn usage_error(prefix: &str, rest: &str) -> (e: X86Error)
    ensures
        e matches X86Error::InvalidImage(m) && m@ == prefix@ + rest@,
{
    let mut m = String::from_str(prefix);
    m.append(rest);
    X86Error::InvalidImage(m)
}

/// Parses `config ...`, whose word spans are `w`.
fn parse_config(line: &str, w: &Vec<(usize, usize)>) -> (r: Result<ConsoleCommand, X86Error>)
    requires
        w@.len() >= 1,
        forall|j: int| 0 <= j < w@.len() ==> w@[j].0 <= #[trigger] w@[j].1 <= line@.len(),
    ensures
        outcome_view(r) == config_line(spans_text(line@, w@)),
{
    proof {
        reveal_strlit("");
    }
    let sub = word_at(line, w, 1);
    let ram = word_is(&sub, "ram");
    if !ram && !word_is(&sub, "vga") {
        return Err(usage_error("usage: config ram|vga <bytes>", ""));
    }
    match word_at(line, w, 2) {
        None => Err(usage_error("missing numeric value", "")),
        Some(t) => match parse_u64(t.as_str()) {
            Err(m) => Err(usage_error("invalid number: ", m.as_str())),
            Ok(n) => if ram {
                Ok(ConsoleCommand::ConfigRam(n))
            } else {
                Ok(ConsoleCommand::ConfigVga(n))
            },
        },
    }
}

/// The resource `load bootloader <source>` reads.
fn bootloader_resource(source: String) -> (r: Resource)
    ensures
        r@ == bootloader_source(source@),
{
    if has_prefix(source.as_str(), "http://") || has_prefix(source.as_str(), "https://") {
        Resource::url(source)
    } else {
        Resource::file(source)
    }
}

/// Parses `load ...`, whose word spans are `w`.
fn parse_load(line: &str, w: &Vec<(usize, usize)>) -> (r: Result<ConsoleCommand, X86Error>)
    requires
        w@.len() >= 1,
        forall|j: int| 0 <= j < w@.len() ==> w@[j].0 <= #[trigger] w@[j].1 <= line@.len(),
    ensures
        outcome_view(r) == load_line(spans_text(line@, w@)),
{
    proof {
        reveal_strlit("");
    }
    let sub = word_at(line, w, 1);
    let source = word_at(line, w, 2);
    if word_is(&sub, "bios") {
        match source {
            Some(p) => Ok(ConsoleCommand::Load(ImageKind::Bios, p)),
            None => Err(usage_error("missing BIOS path", "")),
        }
    } else if word_is(&sub, "vga-bios") {
        match source {
            Some(p) => Ok(ConsoleCommand::Load(ImageKind::VgaBios, p)),
            None => Err(usage_error("missing VGA BIOS path", "")),
        }
    } else if word_is(&sub, "disk") {
        match source {
            Some(p) => Ok(ConsoleCommand::Load(ImageKind::RawDisk, p)),
            None => Err(usage_error("missing disk path", "")),
        }
    } else if word_is(&sub, "cdrom") {
        match source {
            Some(p) => Ok(ConsoleCommand::Load(ImageKind::Iso9660, p)),
            None => Err(usage_error("missing CD-ROM path", "")),
        }
    } else if word_is(&sub, "state") {
        match source {
            Some(p) => Ok(ConsoleCommand::LoadState(p)),
            None => Err(usage_error("missing state path", "")),
        }
    } else if word_is(&sub, "bootloader") {
        match source {
            Some(p) => Ok(ConsoleCommand::LoadBootloader(bootloader_resource(p))),
            None => Err(usage_error("missing bootloader path or URL", "")),
        }
    } else {
        Err(usage_error("usage: load bios|vga-bios|disk|cdrom|state|bootloader <source>", ""))
    }
}

/// Parses `run-state ...`, whose word spans are `w`.
fn parse_run_state(line: &str, w: &Vec<(usize, usize)>, has_saved_state: bool) -> (r: Result<ConsoleCommand, X86Error>)
    requires
        w@.len() >= 1,
        forall|j: int| 0 <= j < w@.len() ==> w@[j].0 <= #[trigger] w@[j].1 <= line@.len(),
    ensures
        outcome_view(r) == run_state_line(spans_text(line@, w@), has_saved_state),
{
    if !has_saved_state {
        return Err(X86Error::InvalidState(String::from_str("load a v86 saved state before run-state")));
    }
    match word_at(line, w, 1) {
        None => Ok(ConsoleCommand::RunState(DEFAULT_MAX_STEPS)),
        Some(t) => match parse_u64(t.as_str()) {
            Ok(n) => Ok(ConsoleCommand::RunState(n)),
            Err(m) => Err(usage_error("invalid max_steps: ", m.as_str())),
        },
    }
}

/// Parses the console line `line`: the command it asks for, or the usage
/// error that answers it. `has_saved_state` tells whether a saved state is
/// loaded, which `run-state` needs.
pub fn parse_console_line(line: &str, has_saved_state: bool) -> (r: Result<ConsoleCommand, X86Error>)
    ensures
        outcome_view(r) == console_command(line@, has_saved_state),
{
    let w = word_spans(line);
    let c = word_at(line, &w, 0);
    if c.is_none() {
        return Ok(ConsoleCommand::Nothing);
    }
    if word_is(&c, "help") {
        Ok(ConsoleCommand::Help)
    } else if word_is(&c, "capabilities") {
        Ok(ConsoleCommand::Capabilities)
    } else if word_is(&c, "info") {
        Ok(ConsoleCommand::Info)
    } else if word_is(&c, "config") {
        parse_config(line, &w)
    } else if word_is(&c, "load") {
        parse_load(line, &w)
    } else if word_is(&c, "checksum") {
        match word_at(line, &w, 1) {
            Some(k) => Ok(ConsoleCommand::Checksum(k)),
            None => Ok(ConsoleCommand::Checksum(String::new())),
        }
    } else if word_is(&c, "dump-screen") {
        match word_at(line, &w, 1) {
            Some(p) => Ok(ConsoleCommand::DumpScreen(p)),
            None => Err(X86Error::InvalidImage(String::from_str("usage: dump-screen <path.ppm>"))),
        }
    } else if word_is(&c, "screen") {
        Ok(ConsoleCommand::Screen)
    } else if word_is(&c, "type") {
        let mut text = join_from(line, &w, 1);
        proof {
            reveal_strlit("\n");
        }
        let ghost joined = text@;
        text.append("\n");
        assert(text@ =~= joined + seq!['\n']);
        Ok(ConsoleCommand::Type(text))
    } else if word_is(&c, "prepare") {
        Ok(ConsoleCommand::Prepare)
    } else if word_is(&c, "run") {
        Ok(ConsoleCommand::Run)
    } else if word_is(&c, "run-state") {
        parse_run_state(line, &w, has_saved_state)
    } else if word_is(&c, "quit") || word_is(&c, "exit") {
        Ok(ConsoleCommand::Quit)
    } else {
        Err(X86Error::InvalidImage(String::from_str("unknown command; type `help`")))
    }
}

} // verus!
