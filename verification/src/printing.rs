//! ESC/POS printing over the three transports POS hardware uses: raw TCP
//! (":9100" network printers), USB (libusb), and the Windows print spooler
//! (buffered bytes handed to the spooler).
//!
//! The API is deliberately dumb: a target address and a list of ops. Receipt
//! layout, logos and templating belong to the host application.
//!
//! A job is planned here as a list of actions: open one connection, drive the
//! `escpos` printer through a sequence of commands, and hand the buffered bytes
//! to the spooler where the target is a system printer. The caller performs the
//! actions one at a time and reports each outcome to [`PrintJob::next`], which
//! says what to do next and what the job finally returns.
use vstd::prelude::*;

use escpos::errors::PrinterError;
use escpos::utils::{BitImageOption, BitImageSize};

use crate::text::{chars_of, decimal, decimal_chars, push_all, string_from_chars};

verus! {

broadcast use vstd::string::group_string_axioms;

/// Declares `escpos`'s bit image option; nothing inside it is visible here.
#[verifier::external_type_specification]
#[verifier::external_body]
pub struct ExBitImageOption(BitImageOption);

// ─── Targets and ops ────────────────────────────────────────────────────────

/// Where the bytes go.
#[derive(Debug, Clone)]
pub enum PrinterTarget {
    /// Raw TCP, default port 9100.
    Network { host: String, port: u16 },
    /// Direct USB via libusb.
    Usb { vendor_id: u16, product_id: u16 },
    /// A printer known to the OS spooler (Windows; raw bytes).
    System { name: String },
}

/// The TCP port of a raw ESC/POS network printer when none is given.
pub fn default_port() -> (port: u16)
    ensures
        port == 9100,
{
    9100
}

/// Text justification.
#[derive(PartialEq, Eq, Structural, Clone, Copy, Debug)]
pub enum Align {
    Left,
    Center,
    Right,
}

/// One printer instruction. Hosts compose receipts and tickets out of these.
#[derive(Debug, Clone)]
pub enum PrintOp {
    /// A line of text (UTF-8 pass-through; Georgian etc. depends on printer firmware).
    Text {
        text: String,
        bold: bool,
        align: Option<Align>,
        /// (width, height) multipliers 1..=8.
        size: Option<(u8, u8)>,
    },
    /// Raster image from a file path, optionally constrained to a max width in dots.
    Image { path: String, max_width: Option<u32> },
    /// Feed n lines.
    Feed { lines: u8 },
    /// Full cut.
    Cut,
    /// Kick the cash drawer (pin 2).
    DrawerKick,
    /// Raw ESC/POS bytes for anything the ops above don't cover.
    Raw { bytes: Vec<u8> },
}

/// A target as plain values.
pub enum TargetView {
    Network { host: Seq<char>, port: u16 },
    Usb { vendor_id: u16, product_id: u16 },
    System { name: Seq<char> },
}

impl View for PrinterTarget {
    type V = TargetView;

    open spec fn view(&self) -> TargetView {
        match self {
            PrinterTarget::Network { host, port } => TargetView::Network { host: host@, port: *port },
            PrinterTarget::Usb { vendor_id, product_id } => TargetView::Usb {
                vendor_id: *vendor_id,
                product_id: *product_id,
            },
            PrinterTarget::System { name } => TargetView::System { name: name@ },
        }
    }
}

/// An op as plain values.
pub enum OpView {
    Text { text: Seq<char>, bold: bool, align: Option<Align>, size: Option<(u8, u8)> },
    Image { path: Seq<char>, max_width: Option<u32> },
    Feed { lines: u8 },
    Cut,
    DrawerKick,
    Raw { bytes: Seq<u8> },
}

impl View for PrintOp {
    type V = OpView;

    open spec fn view(&self) -> OpView {
        match self {
            PrintOp::Text { text, bold, align, size } => OpView::Text {
                text: text@,
                bold: *bold,
                align: *align,
                size: *size,
            },
            PrintOp::Image { path, max_width } => OpView::Image { path: path@, max_width: *max_width },
            PrintOp::Feed { lines } => OpView::Feed { lines: *lines },
            PrintOp::Cut => OpView::Cut,
            PrintOp::DrawerKick => OpView::DrawerKick,
            PrintOp::Raw { bytes } => OpView::Raw { bytes: bytes@ },
        }
    }
}

/// The ops of a list, as plain values.
pub open spec fn ops_view(ops: Seq<PrintOp>) -> Seq<OpView> {
    ops.map_values(|op: PrintOp| op@)
}

// ─── Printer errors ─────────────────────────────────────────────────────────

/// An error reported by the `escpos` printer, with its message.
#[derive(Debug)]
pub enum PrinterFault {
    Io(String),
    Input(String),
    InvalidResponse(String),
}

/// The text of a printer error, as `escpos` displays it.
pub open spec fn fault_text(f: PrinterFault) -> Seq<char> {
    match f {
        PrinterFault::Io(s) => "IO error: "@ + s@,
        PrinterFault::Input(s) => "Input error: "@ + s@,
        PrinterFault::InvalidResponse(s) => "Invalid response: "@ + s@,
    }
}

impl PrinterFault {
    /// The text of the error, as `escpos` displays it.
    pub fn message(&self) -> (m: String)
        ensures
            m@ == fault_text(*self),
    {
        let (mut v, detail) = match self {
            PrinterFault::Io(s) => (chars_of("IO error: "), s),
            PrinterFault::Input(s) => (chars_of("Input error: "), s),
            PrinterFault::InvalidResponse(s) => (chars_of("Invalid response: "), s),
        };
        push_all(&mut v, &chars_of(detail.as_str()));
        string_from_chars(&v)
    }
}

/// A printer result with the error turned into its text.
pub fn map_err<T>(result: Result<T, PrinterFault>) -> (r: Result<T, String>)
    ensures
        result matches Ok(v) ==> r == Ok::<T, String>(v),
        result matches Err(f) ==> (r matches Err(m) && m@ == fault_text(f)),
{
    match result {
        Ok(v) => Ok(v),
        Err(f) => Err(f.message()),
    }
}

/// The message `escpos` gives a bit image max width that is not a multiple of 8.
pub open spec fn image_width_message() -> Seq<char> {
    "bit image max width must be a multiple of 8"@
}

/// The message `escpos` gives a bit image max height that is not a multiple of 8.
pub open spec fn image_height_message() -> Seq<char> {
    "bit image max height must be a multiple of 8"@
}

/// A bit image max width or height that `escpos` rejects: one that is not a
/// multiple of 8.
pub open spec fn rejects_image_bound(bound: Option<u32>) -> bool {
    bound matches Some(b) && b % 8 != 0
}

/// A bit image max width and height that `escpos` rejects: either one is not
/// a multiple of 8.
pub open spec fn rejects_image_bounds(max_width: Option<u32>, max_height: Option<u32>) -> bool {
    rejects_image_bound(max_width) || rejects_image_bound(max_height)
}

/// The message `escpos` gives rejected bit image bounds: the width is checked
/// first.
pub open spec fn image_bounds_message(max_width: Option<u32>) -> Seq<char> {
    if rejects_image_bound(max_width) {
        image_width_message()
    } else {
        image_height_message()
    }
}

/// The scale a bit image is printed at (`escpos`'s `BitImageSize`).
#[derive(PartialEq, Eq, Structural, Clone, Copy, Debug)]
pub enum ImageScale {
    Normal,
    DoubleWidth,
    DoubleHeight,
    DoubleWidthAndHeight,
}

/// What a bit image option was made with.
pub struct ImageOptionView {
    pub max_width: Option<u32>,
    pub max_height: Option<u32>,
    pub scale: ImageScale,
}

/// The bit image option of one image, kept with what it was made with.
#[derive(Debug)]
pub struct ImageOption {
    max_width: Option<u32>,
    max_height: Option<u32>,
    scale: ImageScale,
    option: BitImageOption,
}

impl View for ImageOption {
    type V = ImageOptionView;

    /// The max width, max height and scale the option was made with.
    closed spec fn view(&self) -> ImageOptionView {
        ImageOptionView { max_width: self.max_width, max_height: self.max_height, scale: self.scale }
    }
}

impl ImageOption {
    /// The max width the option was made with.
    pub fn max_width(&self) -> (w: Option<u32>)
        ensures
            w == self@.max_width,
    {
        self.max_width
    }

    /// The max height the option was made with.
    pub fn max_height(&self) -> (h: Option<u32>)
        ensures
            h == self@.max_height,
    {
        self.max_height
    }

    /// The scale the option was made with.
    pub fn scale(&self) -> (s: ImageScale)
        ensures
            s == self@.scale,
    {
        self.scale
    }

    /// The `escpos` option itself, to hand to `bit_image_option`.
    pub fn into_option(self) -> BitImageOption {
        self.option
    }
}

/// Calls `escpos::utils::BitImageOption::new(max_width, max_height, scale)` and
/// keeps the three beside the option it returns. Its source rejects a max width
/// that is not a multiple of 8, then a max height that is not, each with an
/// input error of its own, and accepts everything else; the contract says so,
/// and that the option returned is the one made with these arguments. What the
/// option holds inside is not stated.
#[verifier::external_body]
fn bit_image_option(max_width: Option<u32>, max_height: Option<u32>, scale: ImageScale) -> (r: Result<ImageOption, PrinterFault>)
    ensures
        r is Err <==> rejects_image_bounds(max_width, max_height),
        r is Err ==> (r matches Err(PrinterFault::Input(m)) && m@ == image_bounds_message(max_width)),
        r matches Ok(o) ==> o@.max_width == max_width && o@.max_height == max_height && o@.scale == scale,
{
    let size = match scale {
        ImageScale::Normal => BitImageSize::Normal,
        ImageScale::DoubleWidth => BitImageSize::DoubleWidth,
        ImageScale::DoubleHeight => BitImageSize::DoubleHeight,
        ImageScale::DoubleWidthAndHeight => BitImageSize::DoubleWidthAndHeight,
    };
    match BitImageOption::new(max_width, max_height, size) {
        Ok(option) => Ok(ImageOption { max_width, max_height, scale, option }),
        Err(PrinterError::Io(s)) => Err(PrinterFault::Io(s)),
        Err(PrinterError::Input(s)) => Err(PrinterFault::Input(s)),
        Err(PrinterError::InvalidResponse(s)) => Err(PrinterFault::InvalidResponse(s)),
    }
}

/// The option an image op is printed with: its max width, no max height, at
/// normal scale (one attempt, no fallback).
pub open spec fn image_op_option(max_width: Option<u32>) -> ImageOptionView {
    ImageOptionView { max_width, max_height: None, scale: ImageScale::Normal }
}

// ─── Printer commands and job actions ───────────────────────────────────────

/// One call on an `escpos` printer.
#[derive(Debug)]
pub enum PrinterCommand {
    /// `init`: ESC @.
    Init,
    /// `justify`.
    Justify(Align),
    /// `size(width, height)`.
    Size(u8, u8),
    /// `reset_size`.
    ResetSize,
    /// `bold`.
    Bold(bool),
    /// `writeln`.
    WriteLine(String),
    /// `bit_image_option(path, option)`, with the option made for the image's max width.
    BitImage { path: String, option: ImageOption },
    /// `feeds`.
    Feeds(u8),
    /// `print_cut`: full cut, then the buffered commands are sent.
    PrintCut,
    /// `cash_drawer(CashDrawer::Pin2)`.
    CashDrawer,
    /// `custom`: raw bytes.
    Custom(Vec<u8>),
    /// `print`: the buffered commands are sent.
    Print,
}

/// A printer command as plain values.
pub enum CommandView {
    Init,
    Justify(Align),
    Size(u8, u8),
    ResetSize,
    Bold(bool),
    WriteLine(Seq<char>),
    BitImage { path: Seq<char>, option: ImageOptionView },
    Feeds(u8),
    PrintCut,
    CashDrawer,
    Custom(Seq<u8>),
    Print,
}

impl View for PrinterCommand {
    type V = CommandView;

    open spec fn view(&self) -> CommandView {
        match self {
            PrinterCommand::Init => CommandView::Init,
            PrinterCommand::Justify(a) => CommandView::Justify(*a),
            PrinterCommand::Size(w, h) => CommandView::Size(*w, *h),
            PrinterCommand::ResetSize => CommandView::ResetSize,
            PrinterCommand::Bold(b) => CommandView::Bold(*b),
            PrinterCommand::WriteLine(t) => CommandView::WriteLine(t@),
            PrinterCommand::BitImage { path, option } => CommandView::BitImage { path: path@, option: option@ },
            PrinterCommand::Feeds(n) => CommandView::Feeds(*n),
            PrinterCommand::PrintCut => CommandView::PrintCut,
            PrinterCommand::CashDrawer => CommandView::CashDrawer,
            PrinterCommand::Custom(b) => CommandView::Custom(b@),
            PrinterCommand::Print => CommandView::Print,
        }
    }
}

/// The printer connection a job opens.
#[derive(Debug)]
pub enum Connection {
    /// `NetworkDriver::open(host, port, 5 s)`.
    Network { host: String, port: u16 },
    /// `UsbDriver::open(vendor_id, product_id, 8 s, None)`.
    Usb { vendor_id: u16, product_id: u16 },
    /// A printer whose driver only collects the bytes it is sent.
    Buffer,
}

/// A connection as plain values.
pub enum ConnectionView {
    Network { host: Seq<char>, port: u16 },
    Usb { vendor_id: u16, product_id: u16 },
    Buffer,
}

impl View for Connection {
    type V = ConnectionView;

    open spec fn view(&self) -> ConnectionView {
        match self {
            Connection::Network { host, port } => ConnectionView::Network { host: host@, port: *port },
            Connection::Usb { vendor_id, product_id } => ConnectionView::Usb {
                vendor_id: *vendor_id,
                product_id: *product_id,
            },
            Connection::Buffer => ConnectionView::Buffer,
        }
    }
}

/// One step of a job, for the caller to perform.
#[derive(Debug)]
pub enum JobAction {
    /// Open the printer connection; a failure is a printer error.
    Connect(Connection),
    /// Call the printer; a failure is a printer error.
    Run(PrinterCommand),
    /// Hand the bytes collected by the buffer connection to the system spooler
    /// under this printer name; a failure is reported as the spooler's text.
    Spool(String),
    /// Connect to `address` ("host:port") over TCP (3 s timeout) and write
    /// `bytes`, without any printer initialization; a failure is reported as
    /// the text of the I/O error.
    Pulse { address: String, bytes: Vec<u8> },
    /// The job fails here with this message; the caller performs nothing.
    Fail(String),
}

/// A job action as plain values.
pub enum ActionView {
    Connect(ConnectionView),
    Run(CommandView),
    Spool(Seq<char>),
    Pulse { address: Seq<char>, bytes: Seq<u8> },
    Fail(Seq<char>),
}

impl View for JobAction {
    type V = ActionView;

    open spec fn view(&self) -> ActionView {
        match self {
            JobAction::Connect(c) => ActionView::Connect(c@),
            JobAction::Run(c) => ActionView::Run(c@),
            JobAction::Spool(n) => ActionView::Spool(n@),
            JobAction::Pulse { address, bytes } => ActionView::Pulse { address: address@, bytes: bytes@ },
            JobAction::Fail(m) => ActionView::Fail(m@),
        }
    }
}

/// The actions of a list, as plain values.
pub open spec fn actions_view(actions: Seq<JobAction>) -> Seq<ActionView> {
    actions.map_values(|a: JobAction| a@)
}

/// Each command run in turn.
pub open spec fn runs(cmds: Seq<CommandView>) -> Seq<ActionView> {
    cmds.map_values(|c: CommandView| ActionView::Run(c))
}

// ─── What a job does ────────────────────────────────────────────────────────

/// The commands that set up the print mode of a text op: justification and
/// size where given, and bold as asked.
pub open spec fn text_setup(bold: bool, align: Option<Align>, size: Option<(u8, u8)>) -> Seq<CommandView> {
    let set_align = match align {
        Some(a) => seq![CommandView::Justify(a)],
        None => seq![],
    };
    let set_size = match size {
        Some((w, h)) => seq![CommandView::Size(w, h)],
        None => seq![],
    };
    set_align + set_size + seq![CommandView::Bold(bold)]
}

/// The commands that follow the line of a text op: bold off, then size and
/// justification back to their defaults where they were changed.
pub open spec fn text_teardown(align: Option<Align>, size: Option<(u8, u8)>) -> Seq<CommandView> {
    let reset_size = if size is Some {
        seq![CommandView::ResetSize]
    } else {
        seq![]
    };
    let reset_align = if align is Some {
        seq![CommandView::Justify(Align::Left)]
    } else {
        seq![]
    };
    seq![CommandView::Bold(false)] + reset_size + reset_align
}

/// The commands of a text op: set up, write the line, tear down.
pub open spec fn text_commands(
    text: Seq<char>,
    bold: bool,
    align: Option<Align>,
    size: Option<(u8, u8)>,
) -> Seq<CommandView> {
    text_setup(bold, align, size) + seq![CommandView::WriteLine(text)] + text_teardown(align, size)
}

/// The commands of one op.
pub open spec fn op_commands(op: OpView) -> Seq<CommandView> {
    match op {
        OpView::Text { text, bold, align, size } => text_commands(text, bold, align, size),
        OpView::Image { path, max_width } => seq![
            CommandView::BitImage { path, option: image_op_option(max_width) },
        ],
        OpView::Feed { lines } => seq![CommandView::Feeds(lines)],
        OpView::Cut => seq![CommandView::PrintCut],
        OpView::DrawerKick => seq![CommandView::CashDrawer],
        OpView::Raw { bytes } => seq![CommandView::Custom(bytes)],
    }
}

/// The commands of a list of ops, one op after the other.
pub open spec fn ops_commands(ops: Seq<OpView>) -> Seq<CommandView>
    decreases ops.len(),
{
    if ops.len() == 0 {
        seq![]
    } else {
        ops_commands(ops.drop_last()) + op_commands(ops.last())
    }
}

/// An op that cannot be run: an image whose max width `escpos` rejects.
pub open spec fn op_rejected(op: OpView) -> bool {
    op matches OpView::Image { max_width, .. } && rejects_image_bound(max_width)
}

/// The index of the first rejected op at or after `i`, or the length of the list.
pub open spec fn first_rejected_from(ops: Seq<OpView>, i: int) -> int
    decreases ops.len() - i,
{
    if i >= ops.len() {
        ops.len() as int
    } else if op_rejected(ops[i]) {
        i
    } else {
        first_rejected_from(ops, i + 1)
    }
}

/// The first rejected op lies within the list, or is its length.
pub proof fn lemma_first_rejected_bound(ops: Seq<OpView>, i: int)
    requires
        0 <= i,
    ensures
        i <= ops.len() ==> i <= first_rejected_from(ops, i) <= ops.len(),
        i > ops.len() ==> first_rejected_from(ops, i) == ops.len(),
    decreases ops.len() - i,
{
    if i < ops.len() && !op_rejected(ops[i]) {
        lemma_first_rejected_bound(ops, i + 1);
    }
}

/// The index of the first rejected op, or the length of the list.
pub open spec fn first_rejected(ops: Seq<OpView>) -> int {
    first_rejected_from(ops, 0)
}

/// The text a job fails with at a rejected image.
pub open spec fn image_width_error() -> Seq<char> {
    "Input error: "@ + image_width_message()
}

/// Driving the printer through a list of ops: initialize, the commands of each
/// op in order, then send everything buffered. A rejected image ends the job
/// there with its error, before anything after it.
pub open spec fn ops_actions(ops: Seq<OpView>) -> Seq<ActionView> {
    let k = first_rejected(ops);
    let body = seq![ActionView::Run(CommandView::Init)] + runs(ops_commands(ops.take(k)));
    if k < ops.len() {
        body.push(ActionView::Fail(image_width_error()))
    } else {
        body.push(ActionView::Run(CommandView::Print))
    }
}

/// A print job: one connection per job, the ops, and, for a system printer,
/// the collected bytes handed to the spooler once every op has run.
pub open spec fn job_actions(target: TargetView, ops: Seq<OpView>) -> Seq<ActionView> {
    match target {
        TargetView::Network { host, port } => seq![
            ActionView::Connect(ConnectionView::Network { host, port }),
        ] + ops_actions(ops),
        TargetView::Usb { vendor_id, product_id } => seq![
            ActionView::Connect(ConnectionView::Usb { vendor_id, product_id }),
        ] + ops_actions(ops),
        TargetView::System { name } => if first_rejected(ops) < ops.len() {
            seq![ActionView::Connect(ConnectionView::Buffer)] + ops_actions(ops)
        } else {
            (seq![ActionView::Connect(ConnectionView::Buffer)] + ops_actions(ops)).push(
                ActionView::Spool(name),
            )
        },
    }
}

/// ESC p 0 25 255: a drawer kick pulse on pin 2.
pub open spec fn drawer_pulse() -> Seq<u8> {
    seq![0x1B, 0x70, 0x00, 0x19, 0xFF]
}

/// Kicking the drawer without printing anything. A network printer gets the
/// bare pulse, with no initialization (some printers feed paper on init);
/// USB and system printers are initialized and given the pin 2 command, which
/// are then sent (`print`), to the device or into the buffer handed to the
/// spooler.
pub open spec fn drawer_actions(target: TargetView) -> Seq<ActionView> {
    match target {
        TargetView::Network { host, port } => seq![
            ActionView::Pulse { address: host + ":"@ + decimal(port as nat), bytes: drawer_pulse() },
        ],
        TargetView::Usb { vendor_id, product_id } => seq![
            ActionView::Connect(ConnectionView::Usb { vendor_id, product_id }),
            ActionView::Run(CommandView::Init),
            ActionView::Run(CommandView::CashDrawer),
            ActionView::Run(CommandView::Print),
        ],
        TargetView::System { name } => seq![
            ActionView::Connect(ConnectionView::Buffer),
            ActionView::Run(CommandView::Init),
            ActionView::Run(CommandView::CashDrawer),
            ActionView::Run(CommandView::Print),
            ActionView::Spool(name),
        ],
    }
}

// ─── Building jobs ──────────────────────────────────────────────────────────

/// Running `c` after `cmds` appends one run action.
proof fn lemma_runs_push(cmds: Seq<CommandView>, c: CommandView)
    ensures
        runs(cmds.push(c)) == runs(cmds).push(ActionView::Run(c)),
{
    assert(runs(cmds.push(c)) =~= runs(cmds).push(ActionView::Run(c)));
}

/// Running two command lists is running one after the other.
proof fn lemma_runs_concat(a: Seq<CommandView>, b: Seq<CommandView>)
    ensures
        runs(a + b) == runs(a) + runs(b),
{
    assert(runs(a + b) =~= runs(a) + runs(b));
}

/// Appends an action.
fn push_action(actions: &mut Vec<JobAction>, a: JobAction)
    ensures
        actions_view(final(actions)@) == actions_view(old(actions)@).push(a@),
{
    let ghost before = actions@;
    actions.push(a);
    assert(actions_view(actions@) =~= actions_view(before).push(a@));
}

/// Appends the action that runs `c`.
fn push_run(actions: &mut Vec<JobAction>, c: PrinterCommand)
    ensures
        actions_view(final(actions)@) == actions_view(old(actions)@).push(ActionView::Run(c@)),
{
    push_action(actions, JobAction::Run(c));
}

/// A copy of a byte vector.
fn copy_bytes(v: &Vec<u8>) -> (r: Vec<u8>)
    ensures
        r@ == v@,
{
    let mut r: Vec<u8> = Vec::new();
    let mut i: usize = 0;
    while i < v.len()
        invariant
            i <= v@.len(),
            r@ == v@.take(i as int),
        decreases v@.len() - i,
    {
        r.push(v[i]);
        i += 1;
        assert(r@ =~= v@.take(i as int));
    }
    assert(v@.take(i as int) =~= v@);
    r
}

/// Appends the runs of a text op's commands.
fn push_text_commands(
    actions: &mut Vec<JobAction>,
    text: &String,
    bold: bool,
    align: Option<Align>,
    size: Option<(u8, u8)>,
)
    ensures
        actions_view(final(actions)@) == actions_view(old(actions)@) + runs(
            text_commands(text@, bold, align, size),
        ),
{
    let ghost start = actions_view(actions@);
    let ghost mut cmds: Seq<CommandView> = seq![];
    assert(start + runs(cmds) =~= start);
    if let Some(a) = align {
        push_run(actions, PrinterCommand::Justify(a));
        proof {
            lemma_runs_push(cmds, CommandView::Justify(a));
            cmds = cmds.push(CommandView::Justify(a));
        }
    }
    if let Some((w, h)) = size {
        push_run(actions, PrinterCommand::Size(w, h));
        proof {
            lemma_runs_push(cmds, CommandView::Size(w, h));
            cmds = cmds.push(CommandView::Size(w, h));
        }
    }
    push_run(actions, PrinterCommand::Bold(bold));
    proof {
        lemma_runs_push(cmds, CommandView::Bold(bold));
        cmds = cmds.push(CommandView::Bold(bold));
    }
    push_run(actions, PrinterCommand::WriteLine(text.clone()));
    proof {
        lemma_runs_push(cmds, CommandView::WriteLine(text@));
        cmds = cmds.push(CommandView::WriteLine(text@));
    }
    push_run(actions, PrinterCommand::Bold(false));
    proof {
        lemma_runs_push(cmds, CommandView::Bold(false));
        cmds = cmds.push(CommandView::Bold(false));
    }
    if size.is_some() {
        push_run(actions, PrinterCommand::ResetSize);
        proof {
            lemma_runs_push(cmds, CommandView::ResetSize);
            cmds = cmds.push(CommandView::ResetSize);
        }
    }
    if align.is_some() {
        push_run(actions, PrinterCommand::Justify(Align::Left));
        proof {
            lemma_runs_push(cmds, CommandView::Justify(Align::Left));
            cmds = cmds.push(CommandView::Justify(Align::Left));
        }
    }
    assert(cmds =~= text_commands(text@, bold, align, size));
}

/// Appends the actions that drive the printer through `ops`; returns whether
/// every op could be planned (no image width was rejected).
fn push_ops_actions(actions: &mut Vec<JobAction>, ops: &[PrintOp]) -> (complete: bool)
    ensures
        actions_view(final(actions)@) == actions_view(old(actions)@) + ops_actions(ops_view(ops@)),
        complete == (first_rejected(ops_view(ops@)) == ops@.len()),
{
    let ghost start = actions_view(actions@);
    let ghost opsv = ops_view(ops@);
    push_run(actions, PrinterCommand::Init);
    proof {
        assert(opsv.take(0) =~= Seq::<OpView>::empty());
        assert(runs(Seq::<CommandView>::empty()) =~= Seq::<ActionView>::empty());
        assert(actions_view(actions@) =~= start + seq![ActionView::Run(CommandView::Init)] + runs(
            ops_commands(opsv.take(0)),
        ));
    }
    let mut i: usize = 0;
    while i < ops.len()
        invariant
            i <= ops@.len(),
            opsv == ops_view(ops@),
            opsv.len() == ops@.len(),
            actions_view(actions@) == start + seq![ActionView::Run(CommandView::Init)] + runs(
                ops_commands(opsv.take(i as int)),
            ),
            first_rejected(opsv) == first_rejected_from(opsv, i as int),
            start == actions_view(old(actions)@),
        decreases ops@.len() - i,
    {
        let ghost before = actions_view(actions@);
        let ghost op = opsv[i as int];
        assert(op == ops@[i as int]@);
        match &ops[i] {
            PrintOp::Text { text, bold, align, size } => {
                push_text_commands(actions, text, *bold, *align, *size);
            },
            PrintOp::Image { path, max_width } => {
                match bit_image_option(*max_width, None, ImageScale::Normal) {
                    Ok(option) => {
                        push_run(
                            actions,
                            PrinterCommand::BitImage { path: path.clone(), option },
                        );
                        proof {
                            assert(runs(op_commands(op)) =~= seq![
                                ActionView::Run(CommandView::BitImage { path: path@, option: image_op_option(*max_width) }),
                            ]);
                        }
                    },
                    Err(fault) => {
                        let message = fault.message();
                        push_action(actions, JobAction::Fail(message));
                        proof {
                            assert(op_rejected(op));
                            assert(first_rejected_from(opsv, i as int) == i);
                            assert(message@ =~= image_width_error());
                            assert(actions_view(actions@) =~= start + ops_actions(opsv));
                        }
                        return false;
                    },
                }
            },
            PrintOp::Feed { lines } => {
                push_run(actions, PrinterCommand::Feeds(*lines));
                assert(runs(op_commands(op)) =~= seq![ActionView::Run(CommandView::Feeds(*lines))]);
            },
            PrintOp::Cut => {
                push_run(actions, PrinterCommand::PrintCut);
                assert(runs(op_commands(op)) =~= seq![ActionView::Run(CommandView::PrintCut)]);
            },
            PrintOp::DrawerKick => {
                push_run(actions, PrinterCommand::CashDrawer);
                assert(runs(op_commands(op)) =~= seq![ActionView::Run(CommandView::CashDrawer)]);
            },
            PrintOp::Raw { bytes } => {
                push_run(actions, PrinterCommand::Custom(copy_bytes(bytes)));
                assert(runs(op_commands(op)) =~= seq![ActionView::Run(CommandView::Custom(bytes@))]);
            },
        }
        proof {
            assert(!op_rejected(op));
            assert(actions_view(actions@) == before + runs(op_commands(op)));
            assert(opsv.take(i + 1).drop_last() =~= opsv.take(i as int));
            assert(ops_commands(opsv.take(i + 1)) == ops_commands(opsv.take(i as int)) + op_commands(
                op,
            ));
            lemma_runs_concat(ops_commands(opsv.take(i as int)), op_commands(op));
            assert(actions_view(actions@) =~= start + seq![ActionView::Run(CommandView::Init)] + runs(
                ops_commands(opsv.take(i + 1)),
            ));
        }
        i += 1;
    }
    push_run(actions, PrinterCommand::Print);
    proof {
        assert(opsv.take(i as int) =~= opsv);
        assert(actions_view(actions@) =~= start + ops_actions(opsv));
    }
    true
}

/// A job in progress: the actions still to perform, in order.
#[derive(Debug)]
pub struct PrintJob {
    actions: Vec<JobAction>,
}

impl View for PrintJob {
    type V = Seq<ActionView>;

    closed spec fn view(&self) -> Seq<ActionView> {
        actions_view(self.actions@)
    }
}

/// The job that executes `ops` against `target`: one connection per job (print
/// volume never justifies pooling, and reconnecting per job survives printer
/// power cycles).
pub fn print_job(target: &PrinterTarget, ops: &[PrintOp]) -> (job: PrintJob)
    ensures
        job@ == job_actions(target@, ops_view(ops@)),
{
    let mut actions: Vec<JobAction> = Vec::new();
    let ghost opsv = ops_view(ops@);
    proof {
        assert(actions_view(actions@) =~= Seq::<ActionView>::empty());
        lemma_first_rejected_bound(opsv, 0);
    }
    match target {
        PrinterTarget::Network { host, port } => {
            push_action(&mut actions, JobAction::Connect(Connection::Network { host: host.clone(), port: *port }));
            push_ops_actions(&mut actions, ops);
            assert(actions_view(actions@) =~= job_actions(target@, opsv));
        },
        PrinterTarget::Usb { vendor_id, product_id } => {
            push_action(
                &mut actions,
                JobAction::Connect(Connection::Usb { vendor_id: *vendor_id, product_id: *product_id }),
            );
            push_ops_actions(&mut actions, ops);
            assert(actions_view(actions@) =~= job_actions(target@, opsv));
        },
        PrinterTarget::System { name } => {
            push_action(&mut actions, JobAction::Connect(Connection::Buffer));
            let ghost head = actions_view(actions@);
            assert(head =~= seq![ActionView::Connect(ConnectionView::Buffer)]);
            if push_ops_actions(&mut actions, ops) {
                push_action(&mut actions, JobAction::Spool(name.clone()));
                assert(actions_view(actions@) =~= (head + ops_actions(opsv)).push(ActionView::Spool(name@)));
            } else {
                assert(actions_view(actions@) =~= head + ops_actions(opsv));
            }
            assert(actions_view(actions@) =~= job_actions(target@, opsv));
        },
    }
    PrintJob { actions }
}

/// The job that kicks the cash drawer of `target` without printing anything.
pub fn open_cash_drawer(target: &PrinterTarget) -> (job: PrintJob)
    ensures
        job@ == drawer_actions(target@),
{
    let mut actions: Vec<JobAction> = Vec::new();
    proof {
        assert(actions_view(actions@) =~= Seq::<ActionView>::empty());
    }
    match target {
        PrinterTarget::Network { host, port } => {
            let mut address = chars_of(host.as_str());
            address.push(':');
            push_all(&mut address, &decimal_chars(*port as u32));
            let mut bytes: Vec<u8> = Vec::new();
            bytes.push(0x1B);
            bytes.push(0x70);
            bytes.push(0x00);
            bytes.push(0x19);
            bytes.push(0xFF);
            proof {
                assert(address@ =~= host@ + ":"@ + decimal(*port as nat)) by {
                    reveal_strlit(":");
                }
                assert(bytes@ =~= drawer_pulse());
            }
            push_action(&mut actions, JobAction::Pulse { address: string_from_chars(&address), bytes });
        },
        PrinterTarget::Usb { vendor_id, product_id } => {
            push_action(
                &mut actions,
                JobAction::Connect(Connection::Usb { vendor_id: *vendor_id, product_id: *product_id }),
            );
            push_run(&mut actions, PrinterCommand::Init);
            push_run(&mut actions, PrinterCommand::CashDrawer);
            push_run(&mut actions, PrinterCommand::Print);
        },
        PrinterTarget::System { name } => {
            push_action(&mut actions, JobAction::Connect(Connection::Buffer));
            push_run(&mut actions, PrinterCommand::Init);
            push_run(&mut actions, PrinterCommand::CashDrawer);
            push_run(&mut actions, PrinterCommand::Print);
            push_action(&mut actions, JobAction::Spool(name.clone()));
        },
    }
    proof {
        assert(actions_view(actions@) =~= drawer_actions(target@));
    }
    PrintJob { actions }
}

// ─── Running jobs ───────────────────────────────────────────────────────────

/// How an action failed.
#[derive(Debug)]
pub enum StepError {
    /// The printer (connection or command) reported an error.
    Printer(PrinterFault),
    /// Anything else (spooler, TCP), with its text.
    Other(String),
}

/// The text a job fails with after a failed action.
pub open spec fn step_error_text(e: StepError) -> Seq<char> {
    match e {
        StepError::Printer(f) => fault_text(f),
        StepError::Other(s) => s@,
    }
}

/// What the caller does next.
#[derive(Debug)]
pub enum JobStep {
    /// Perform this action and report its outcome.
    Perform(JobAction),
    /// The job is over, with this result.
    Finished(Result<(), String>),
}

impl PrintJob {
    /// Given the outcome of the last action performed (`Ok(())` before the
    /// first), the next step: the job stops at the first failure, with its
    /// text; it succeeds when every action has been performed successfully.
    pub fn next(&mut self, last: Result<(), StepError>) -> (step: JobStep)
        ensures
            last matches Err(e) ==> (step matches JobStep::Finished(Err(m)) && m@ == step_error_text(
                e,
            )),
            last is Err ==> final(self)@ == Seq::<ActionView>::empty(),
            (last is Ok && old(self)@.len() == 0) ==> (step matches JobStep::Finished(Ok(_))
                && final(self)@ == old(self)@),
            (last is Ok && old(self)@.len() > 0 && old(self)@[0] is Fail) ==> (step matches JobStep::Finished(
                Err(m),
            ) && old(self)@[0] == ActionView::Fail(m@) && final(self)@ == Seq::<ActionView>::empty()),
            (last is Ok && old(self)@.len() > 0 && !(old(self)@[0] is Fail)) ==> (step matches JobStep::Perform(
                a,
            ) && a@ == old(self)@[0] && final(self)@ == old(self)@.drop_first()),
    {
        match last {
            Err(e) => {
                self.actions = Vec::new();
                proof {
                    assert(actions_view(self.actions@) =~= Seq::<ActionView>::empty());
                }
                let text = match e {
                    StepError::Printer(f) => f.message(),
                    StepError::Other(s) => s,
                };
                JobStep::Finished(Err(text))
            },
            Ok(()) => {
                if self.actions.len() == 0 {
                    return JobStep::Finished(Ok(()));
                }
                let ghost before = self.actions@;
                let action = self.actions.remove(0);
                proof {
                    assert(actions_view(self.actions@) =~= actions_view(before).drop_first());
                }
                match action {
                    JobAction::Fail(m) => {
                        self.actions = Vec::new();
                        proof {
                            assert(actions_view(self.actions@) =~= Seq::<ActionView>::empty());
                        }
                        JobStep::Finished(Err(m))
                    },
                    other => JobStep::Perform(other),
                }
            },
        }
    }
}

// ─── Print mode ─────────────────────────────────────────────────────────────

/// The text print mode that the commands of this module set.
pub struct PrintMode {
    pub bold: bool,
    pub align: Align,
    pub size: (u8, u8),
}

/// The mode after initialization (ESC @): bold off, left-justified, 1x1.
pub open spec fn default_mode() -> PrintMode {
    PrintMode { bold: false, align: Align::Left, size: (1, 1) }
}

/// The print mode after a command, where it is known: raw bytes may change
/// anything (`None`), initialization restores the default mode.
pub open spec fn mode_after_command(m: Option<PrintMode>, c: CommandView) -> Option<PrintMode> {
    match c {
        CommandView::Init => Some(default_mode()),
        CommandView::Custom(_) => None,
        _ => match m {
            None => None,
            Some(mode) => Some(
                match c {
                    CommandView::Justify(a) => PrintMode { align: a, ..mode },
                    CommandView::Size(w, h) => PrintMode { size: (w, h), ..mode },
                    CommandView::ResetSize => PrintMode { size: (1, 1), ..mode },
                    CommandView::Bold(b) => PrintMode { bold: b, ..mode },
                    _ => mode,
                },
            ),
        },
    }
}

/// The print mode after a sequence of commands.
pub open spec fn mode_after(m: Option<PrintMode>, cmds: Seq<CommandView>) -> Option<PrintMode>
    decreases cmds.len(),
{
    if cmds.len() == 0 {
        m
    } else {
        mode_after_command(mode_after(m, cmds.drop_last()), cmds.last())
    }
}

/// The mode a text op asks for its line: bold as given, the justification and
/// size given or else the defaults.
pub open spec fn requested_mode(bold: bool, align: Option<Align>, size: Option<(u8, u8)>) -> PrintMode {
    PrintMode {
        bold,
        align: match align {
            Some(a) => a,
            None => Align::Left,
        },
        size: match size {
            Some(s) => s,
            None => (1, 1),
        },
    }
}

/// Running two command sequences is running one after the other.
pub proof fn lemma_mode_after_concat(m: Option<PrintMode>, a: Seq<CommandView>, b: Seq<CommandView>)
    ensures
        mode_after(m, a + b) == mode_after(mode_after(m, a), b),
    decreases b.len(),
{
    if b.len() == 0 {
        assert(a + b =~= a);
    } else {
        lemma_mode_after_concat(m, a, b.drop_last());
        assert((a + b).drop_last() =~= a + b.drop_last());
        assert((a + b).last() == b.last());
    }
}

/// The mode after one command.
proof fn lemma_mode_after_one(m: Option<PrintMode>, c: CommandView)
    ensures
        mode_after(m, seq![c]) == mode_after_command(m, c),
{
    assert(seq![c].drop_last() =~= Seq::<CommandView>::empty());
    assert(mode_after(m, Seq::<CommandView>::empty()) == m);
}

/// A text op writes its line in the mode it asks for, and leaves the printer in
/// the default mode, when it starts from the default mode.
pub proof fn law_text_op_mode(text: Seq<char>, bold: bool, align: Option<Align>, size: Option<(u8, u8)>)
    ensures
        mode_after(Some(default_mode()), text_setup(bold, align, size)) == Some(
            requested_mode(bold, align, size),
        ),
        mode_after(Some(default_mode()), text_commands(text, bold, align, size)) == Some(default_mode()),
{
    let d = Some(default_mode());
    let set_align: Seq<CommandView> = match align {
        Some(a) => seq![CommandView::Justify(a)],
        None => seq![],
    };
    let set_size: Seq<CommandView> = match size {
        Some((w, h)) => seq![CommandView::Size(w, h)],
        None => seq![],
    };
    let reset_size: Seq<CommandView> = if size is Some {
        seq![CommandView::ResetSize]
    } else {
        seq![]
    };
    let reset_align: Seq<CommandView> = if align is Some {
        seq![CommandView::Justify(Align::Left)]
    } else {
        seq![]
    };
    let m1 = mode_after(d, set_align);
    let m2 = mode_after(m1, set_size);
    let m3 = mode_after(m2, seq![CommandView::Bold(bold)]);
    let m4 = mode_after(m3, seq![CommandView::WriteLine(text)]);
    let m5 = mode_after(m4, seq![CommandView::Bold(false)]);
    let m6 = mode_after(m5, reset_size);
    let m7 = mode_after(m6, reset_align);
    match align {
        Some(a) => lemma_mode_after_one(d, CommandView::Justify(a)),
        None => {},
    }
    match size {
        Some((w, h)) => lemma_mode_after_one(m1, CommandView::Size(w, h)),
        None => {},
    }
    lemma_mode_after_one(m2, CommandView::Bold(bold));
    lemma_mode_after_one(m3, CommandView::WriteLine(text));
    lemma_mode_after_one(m4, CommandView::Bold(false));
    if size is Some {
        lemma_mode_after_one(m5, CommandView::ResetSize);
    }
    if align is Some {
        lemma_mode_after_one(m6, CommandView::Justify(Align::Left));
    }
    lemma_mode_after_concat(d, set_align, set_size);
    lemma_mode_after_concat(d, set_align + set_size, seq![CommandView::Bold(bold)]);
    assert(text_setup(bold, align, size) == set_align + set_size + seq![CommandView::Bold(bold)]);
    assert(mode_after(d, text_setup(bold, align, size)) == m3);
    assert(m3 == Some(requested_mode(bold, align, size)));
    let setup = text_setup(bold, align, size);
    lemma_mode_after_concat(d, setup, seq![CommandView::WriteLine(text)]);
    let teardown = text_teardown(align, size);
    assert(teardown == seq![CommandView::Bold(false)] + reset_size + reset_align);
    lemma_mode_after_concat(m4, seq![CommandView::Bold(false)], reset_size);
    lemma_mode_after_concat(m4, seq![CommandView::Bold(false)] + reset_size, reset_align);
    lemma_mode_after_concat(d, setup + seq![CommandView::WriteLine(text)], teardown);
    assert(m7 == d);
}

/// An op other than raw bytes leaves the default mode in place.
proof fn lemma_op_keeps_default_mode(op: OpView)
    requires
        !(op is Raw),
    ensures
        mode_after(Some(default_mode()), op_commands(op)) == Some(default_mode()),
{
    match op {
        OpView::Text { text, bold, align, size } => law_text_op_mode(text, bold, align, size),
        OpView::Image { path, max_width } => lemma_mode_after_one(
            Some(default_mode()),
            CommandView::BitImage { path, option: image_op_option(max_width) },
        ),
        OpView::Feed { lines } => lemma_mode_after_one(Some(default_mode()), CommandView::Feeds(lines)),
        OpView::Cut => lemma_mode_after_one(Some(default_mode()), CommandView::PrintCut),
        OpView::DrawerKick => lemma_mode_after_one(Some(default_mode()), CommandView::CashDrawer),
        OpView::Raw { .. } => {},
    }
}

/// Ops do not leak their print mode into each other: after initialization, each
/// op of a job begins in the default mode, as long as no raw bytes (whose
/// effect is unknown) were sent before it; so each text line is written in the
/// mode its own op asks for (see `law_text_op_mode`).
pub proof fn law_ops_start_in_default_mode(ops: Seq<OpView>, j: int)
    requires
        0 <= j <= ops.len(),
        forall|i: int| 0 <= i < j ==> !(#[trigger] ops[i] is Raw),
    ensures
        mode_after(Some(default_mode()), seq![CommandView::Init] + ops_commands(ops.take(j))) == Some(
            default_mode(),
        ),
    decreases j,
{
    let d = Some(default_mode());
    lemma_mode_after_one(d, CommandView::Init);
    lemma_mode_after_concat(d, seq![CommandView::Init], ops_commands(ops.take(j)));
    if j == 0 {
        assert(ops_commands(ops.take(0)) =~= Seq::<CommandView>::empty());
        assert(seq![CommandView::Init] + ops_commands(ops.take(j)) =~= seq![CommandView::Init]);
    } else {
        law_ops_start_in_default_mode(ops, j - 1);
        lemma_mode_after_concat(d, seq![CommandView::Init], ops_commands(ops.take(j - 1)));
        assert(ops.take(j).drop_last() =~= ops.take(j - 1));
        assert(ops_commands(ops.take(j)) == ops_commands(ops.take(j - 1)) + op_commands(ops[j - 1]));
        lemma_mode_after_concat(d, ops_commands(ops.take(j - 1)), op_commands(ops[j - 1]));
        lemma_op_keeps_default_mode(ops[j - 1]);
    }
}

/// One connection per job: a print job opens its connection first, and never
/// another one.
pub proof fn law_one_connection_per_job(target: TargetView, ops: Seq<OpView>)
    ensures
        job_actions(target, ops).len() > 0,
        job_actions(target, ops)[0] is Connect,
        forall|i: int| 1 <= i < job_actions(target, ops).len() ==> !(#[trigger] job_actions(target, ops)[i] is Connect),
{
    let k = first_rejected(ops);
    let cmds = ops_commands(ops.take(k));
    let body = seq![ActionView::Run(CommandView::Init)] + runs(cmds);
    assert forall|i: int| 0 <= i < body.len() implies !(#[trigger] body[i] is Connect) by {
        if i > 0 {
            assert(body[i] == ActionView::Run(cmds[i - 1]));
        }
    }
    let rest = ops_actions(ops);
    assert forall|i: int| 0 <= i < rest.len() implies !(#[trigger] rest[i] is Connect) by {
        if i < body.len() {
            assert(rest[i] == body[i]);
        }
    }
    let actions = job_actions(target, ops);
    assert forall|i: int| 1 <= i < actions.len() implies !(#[trigger] actions[i] is Connect) by {
        if i < 1 + rest.len() {
            assert(actions[i] == rest[i - 1]);
        }
    }
}

/// Each text line of a job is written in the mode its own op asks for, as long
/// as no raw bytes were sent before its op.
pub proof fn law_text_line_mode(ops: Seq<OpView>, j: int)
    requires
        0 <= j < ops.len(),
        ops[j] is Text,
        forall|i: int| 0 <= i < j ==> !(#[trigger] ops[i] is Raw),
    ensures
        ({
            let before = seq![CommandView::Init] + ops_commands(ops.take(j));
            match ops[j] {
                OpView::Text { text, bold, align, size } => mode_after(
                    Some(default_mode()),
                    before + text_setup(bold, align, size),
                ) == Some(requested_mode(bold, align, size)),
                _ => true,
            }
        }),
{
    law_ops_start_in_default_mode(ops, j);
    let before = seq![CommandView::Init] + ops_commands(ops.take(j));
    match ops[j] {
        OpView::Text { text, bold, align, size } => {
            lemma_mode_after_concat(Some(default_mode()), before, text_setup(bold, align, size));
            law_text_op_mode(text, bold, align, size);
        },
        _ => {},
    }
}

/// The commands of the first `k + 1` ops begin those of the first `n`.
proof fn lemma_ops_commands_take(ops: Seq<OpView>, k: int, n: int)
    requires
        0 <= k < n <= ops.len(),
    ensures
        ops_commands(ops.take(k + 1)) == ops_commands(ops.take(k)) + op_commands(ops[k]),
        ops_commands(ops.take(k + 1)).len() <= ops_commands(ops.take(n)).len(),
        forall|i: int|
            0 <= i < ops_commands(ops.take(k + 1)).len() ==> #[trigger] ops_commands(ops.take(n))[i]
                == ops_commands(ops.take(k + 1))[i],
    decreases n,
{
    assert(ops.take(k + 1).drop_last() =~= ops.take(k));
    assert(ops.take(k + 1).last() == ops[k]);
    if n > k + 1 {
        lemma_ops_commands_take(ops, k, n - 1);
        assert(ops.take(n).drop_last() =~= ops.take(n - 1));
        assert(ops.take(n).last() == ops[n - 1]);
        let whole = ops_commands(ops.take(n));
        let front = ops_commands(ops.take(n - 1));
        assert(whole == front + op_commands(ops[n - 1]));
        assert forall|i: int| 0 <= i < ops_commands(ops.take(k + 1)).len() implies #[trigger] whole[i]
            == ops_commands(ops.take(k + 1))[i] by {
            assert(whole[i] == front[i]);
        }
    }
}

/// Every op before the first rejected one is run in full: its commands follow
/// initialization and the commands of the ops before it, together and in order.
pub proof fn law_op_commands_run_in_order(ops: Seq<OpView>, k: int)
    requires
        0 <= k < first_rejected(ops),
    ensures
        ({
            let off: int = 1 + ops_commands(ops.take(k)).len() as int;
            &&& off + op_commands(ops[k]).len() <= ops_actions(ops).len()
            &&& ops_actions(ops).subrange(off, off + op_commands(ops[k]).len()) == runs(
                op_commands(ops[k]),
            )
        }),
{
    lemma_first_rejected_bound(ops, 0);
    let n = first_rejected(ops);
    lemma_ops_commands_take(ops, k, n);
    let cmds = ops_commands(ops.take(n));
    let mine = op_commands(ops[k]);
    let off: int = 1 + ops_commands(ops.take(k)).len() as int;
    let actions = ops_actions(ops);
    let body = seq![ActionView::Run(CommandView::Init)] + runs(cmds);
    assert(actions.len() == body.len() + 1);
    assert forall|i: int| 0 <= i < mine.len() implies #[trigger] actions.subrange(
        off,
        off + mine.len(),
    )[i] == runs(mine)[i] by {
        let j = ops_commands(ops.take(k)).len() + i;
        assert(ops_commands(ops.take(k + 1))[j] == mine[i]);
        assert(cmds[j] == mine[i]);
        assert(actions[off + i] == body[off + i]);
        assert(body[off + i] == runs(cmds)[j]);
    }
    assert(actions.subrange(off, off + mine.len()) =~= runs(mine));
}

/// The size of a text op that asks for one is set before its line is written,
/// for every op before the first rejected one.
pub proof fn law_text_size_before_line(ops: Seq<OpView>, k: int)
    requires
        0 <= k < first_rejected(ops),
        ops[k] matches OpView::Text { size, .. } && size is Some,
    ensures
        ({
            let actions = ops_actions(ops);
            match ops[k] {
                OpView::Text { text, size: Some((w, h)), .. } => exists|i: int, j: int|
                    0 <= i < j < actions.len() && #[trigger] actions[i] == ActionView::Run(
                        CommandView::Size(w, h),
                    ) && #[trigger] actions[j] == ActionView::Run(CommandView::WriteLine(text)),
                _ => true,
            }
        }),
{
    law_op_commands_run_in_order(ops, k);
    let actions = ops_actions(ops);
    let off: int = 1 + ops_commands(ops.take(k)).len() as int;
    match ops[k] {
        OpView::Text { text, bold, align, size: Some((w, h)) } => {
            let mine = op_commands(ops[k]);
            let a: int = if align is Some {
                1
            } else {
                0
            };
            assert(mine[a] == CommandView::Size(w, h));
            assert(mine[a + 2] == CommandView::WriteLine(text));
            assert(actions.subrange(off, off + mine.len())[a] == runs(mine)[a]);
            assert(actions.subrange(off, off + mine.len())[a + 2] == runs(mine)[a + 2]);
            assert(actions[off + a] == ActionView::Run(CommandView::Size(w, h)));
            assert(actions[off + a + 2] == ActionView::Run(CommandView::WriteLine(text)));
        },
        _ => {},
    }
}

/// An image op before the first rejected one is printed from its own path with
/// exactly its own max width, no max height, at normal scale, right after the
/// commands of the ops before it.
pub proof fn law_image_printed_as_given(ops: Seq<OpView>, k: int)
    requires
        0 <= k < first_rejected(ops),
        ops[k] is Image,
    ensures
        ({
            let at: int = 1 + ops_commands(ops.take(k)).len() as int;
            match ops[k] {
                OpView::Image { path, max_width } => ops_actions(ops)[at] == ActionView::Run(
                    CommandView::BitImage {
                        path,
                        option: ImageOptionView { max_width, max_height: None, scale: ImageScale::Normal },
                    },
                ),
                _ => true,
            }
        }),
{
    law_op_commands_run_in_order(ops, k);
    let off: int = 1 + ops_commands(ops.take(k)).len() as int;
    let mine = op_commands(ops[k]);
    assert(ops_actions(ops).subrange(off, off + mine.len())[0] == runs(mine)[0]);
}

/// Each text line of a job is written after the whole setup of its op and
/// before anything else: the actions before the line run initialization, the
/// commands of the ops before it and the setup of its own op, and, as long as
/// no raw bytes were sent before its op, the printer is then in the mode the op
/// asks for (bold as asked, its justification and size where given, the
/// defaults otherwise). This holds of every text op before the first rejected
/// one.
pub proof fn law_text_line_written_in_requested_mode(ops: Seq<OpView>, k: int)
    requires
        0 <= k < first_rejected(ops),
        ops[k] is Text,
    ensures
        ({
            let actions = ops_actions(ops);
            match ops[k] {
                OpView::Text { text, bold, align, size } => {
                    let before = seq![CommandView::Init] + ops_commands(ops.take(k)) + text_setup(
                        bold,
                        align,
                        size,
                    );
                    &&& before.len() < actions.len()
                    &&& actions.take(before.len() as int) == runs(before)
                    &&& actions[before.len() as int] == ActionView::Run(CommandView::WriteLine(text))
                    &&& (forall|i: int| 0 <= i < k ==> !(#[trigger] ops[i] is Raw)) ==> mode_after(
                        Some(default_mode()),
                        before,
                    ) == Some(
                        PrintMode {
                            bold,
                            align: match align {
                                Some(a) => a,
                                None => Align::Left,
                            },
                            size: match size {
                                Some(s) => s,
                                None => (1, 1),
                            },
                        },
                    )
                },
                _ => true,
            }
        }),
{
    lemma_first_rejected_bound(ops, 0);
    law_op_commands_run_in_order(ops, k);
    let n = first_rejected(ops);
    lemma_ops_commands_take(ops, k, n);
    let actions = ops_actions(ops);
    let cmds = ops_commands(ops.take(n));
    let body = seq![ActionView::Run(CommandView::Init)] + runs(cmds);
    assert(actions.len() == body.len() + 1);
    match ops[k] {
        OpView::Text { text, bold, align, size } => {
            let mine = op_commands(ops[k]);
            let front = ops_commands(ops.take(k));
            let setup = text_setup(bold, align, size);
            let before = seq![CommandView::Init] + front + setup;
            let off: int = 1 + front.len() as int;
            assert(mine == setup + seq![CommandView::WriteLine(text)] + text_teardown(align, size));
            assert forall|i: int| 0 <= i < before.len() implies #[trigger] actions.take(
                before.len() as int,
            )[i] == runs(before)[i] by {
                if i == 0 {
                    assert(actions[0] == body[0]);
                } else if i < off {
                    assert(ops_commands(ops.take(k + 1))[i - 1] == front[i - 1]);
                    assert(cmds[i - 1] == front[i - 1]);
                    assert(actions[i] == body[i]);
                } else {
                    assert(actions.subrange(off, off + mine.len())[i - off] == runs(mine)[i - off]);
                    assert(mine[i - off] == setup[i - off]);
                }
            }
            assert(actions.take(before.len() as int) =~= runs(before));
            let w = setup.len() as int;
            assert(actions.subrange(off, off + mine.len())[w] == runs(mine)[w]);
            assert(mine[w] == CommandView::WriteLine(text));
            if forall|i: int| 0 <= i < k ==> !(#[trigger] ops[i] is Raw) {
                law_text_line_mode(ops, k);
                assert(seq![CommandView::Init] + front + setup == (seq![CommandView::Init] + front) + setup);
            }
        },
        _ => {},
    }
}

} // verus!
