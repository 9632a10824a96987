//! The device as the shell sees it: the state behind the Qt object, what each
//! invokable does to it, and how the events of the device thread change it.
//!
//! An invokable or an event changes the state and gives back what is to be done
//! outside, in order, as [`Effect`]s: properties to set, signals to raise and
//! commands to hand to the device thread.
use crate::protocol::VENDOR;
use crate::settings::{dpi_to_code, SettingsBlock, BLOCK_LEN, DPI_STEPS, LEVELS};
use crate::text::{chars_of, digit_of, push_decimal, push_hex2, push_hex4, utf8_lossy};
use crate::worker::{Command, CommandView, Event, EventView};
use vstd::prelude::*;

verus! {

/// Quit path: how long to wait for the device thread to drain, in seconds.
pub const WORKER_DRAIN_SECS: u64 = 3;

/// What is to be done outside.
#[derive(Debug, PartialEq, Eq)]
pub enum Effect {
    /// Start the device thread, and report how that went.
    Spawn,
    SetConnected(bool),
    SetBattery(i32),
    SetCharging(bool),
    SetMode(i32),
    SetStatusText(String),
    SetDeviceInfo(String),
    BlockChanged,
    ErrorOccurred(String),
    Notified(String),
    /// Hand a command to the device thread.
    Send(Command),
    /// Wait for the commands already queued, for so many seconds at most.
    Drain { seconds: u64 },
}

/// An effect with its texts and bytes as sequences.
pub enum EffectView {
    Spawn,
    SetConnected(bool),
    SetBattery(i32),
    SetCharging(bool),
    SetMode(i32),
    SetStatusText(Seq<char>),
    SetDeviceInfo(Seq<char>),
    BlockChanged,
    ErrorOccurred(Seq<char>),
    Notified(Seq<char>),
    Send(CommandView),
    Drain { seconds: u64 },
}

impl View for Effect {
    type V = EffectView;

    open spec fn view(&self) -> EffectView {
        match *self {
            Effect::Spawn => EffectView::Spawn,
            Effect::SetConnected(connected) => EffectView::SetConnected(connected),
            Effect::SetBattery(battery) => EffectView::SetBattery(battery),
            Effect::SetCharging(charging) => EffectView::SetCharging(charging),
            Effect::SetMode(mode) => EffectView::SetMode(mode),
            Effect::SetStatusText(text) => EffectView::SetStatusText(text@),
            Effect::SetDeviceInfo(text) => EffectView::SetDeviceInfo(text@),
            Effect::BlockChanged => EffectView::BlockChanged,
            Effect::ErrorOccurred(text) => EffectView::ErrorOccurred(text@),
            Effect::Notified(text) => EffectView::Notified(text@),
            Effect::Send(command) => EffectView::Send(command@),
            Effect::Drain { seconds } => EffectView::Drain { seconds },
        }
    }
}

pub open spec fn effect_views(effects: Seq<Effect>) -> Seq<EffectView> {
    effects.map_values(|effect: Effect| effect@)
}

/// The state the Qt object wraps. The field names of the properties are part of
/// the contract with the shell.
pub struct DeviceRust {
    pub connected: bool,
    pub battery: i32,
    pub charging: bool,
    pub mode: i32,
    pub status_text: String,
    pub device_info: String,
    pub block: SettingsBlock,
    pub block_loaded: bool,
    pub generation: u64,
    pub debounce_value: i32,
    pub bank_value: i32,
    /// Whether the device thread runs.
    pub worker: bool,
}

/// The state with its texts and bytes as sequences.
pub struct DeviceView {
    pub connected: bool,
    pub battery: i32,
    pub charging: bool,
    pub mode: i32,
    pub status_text: Seq<char>,
    pub device_info: Seq<char>,
    pub block: Seq<u8>,
    pub block_loaded: bool,
    pub generation: u64,
    pub debounce_value: i32,
    pub bank_value: i32,
    pub worker: bool,
}

impl View for DeviceRust {
    type V = DeviceView;

    open spec fn view(&self) -> DeviceView {
        DeviceView {
            connected: self.connected,
            battery: self.battery,
            charging: self.charging,
            mode: self.mode,
            status_text: self.status_text@,
            device_info: self.device_info@,
            block: self.block@,
            block_loaded: self.block_loaded,
            generation: self.generation,
            debounce_value: self.debounce_value,
            bank_value: self.bank_value,
            worker: self.worker,
        }
    }
}

/// The state before anything is known of a device.
pub open spec fn is_blank(d: DeviceView) -> bool {
    &&& !d.connected
    &&& d.battery == -1
    &&& !d.charging
    &&& d.mode == 0
    &&& d.status_text == "No device"@
    &&& d.device_info.len() == 0
    &&& d.block == Seq::new(BLOCK_LEN as nat, |i: int| 0u8)
    &&& !d.block_loaded
    &&& d.generation == 0
    &&& d.debounce_value == 0
    &&& d.bank_value == 0
    &&& !d.worker
}

impl Default for DeviceRust {
    fn default() -> (state: Self)
        ensures
            is_blank(state@),
    {
        let state = DeviceRust {
            connected: false,
            battery: -1,
            charging: false,
            mode: 0,
            status_text: "No device".to_string(),
            device_info: String::new(),
            block: SettingsBlock::new([0u8; BLOCK_LEN]),
            block_loaded: false,
            generation: 0,
            debounce_value: 0,
            bank_value: 0,
            worker: false,
        };
        proof {
            assert(state@.block =~= Seq::new(BLOCK_LEN as nat, |i: int| 0u8));
            assert(state@.device_info =~= Seq::<char>::empty());
        }
        state
    }
}

// ---------------------------------------------------------------------------
// colours and levels
// ---------------------------------------------------------------------------

/// `#rrggbb` for a colour.
pub open spec fn color_text(rgb: Seq<u8>) -> Seq<char> {
    "#"@ + crate::text::hex2(rgb[0]) + crate::text::hex2(rgb[1]) + crate::text::hex2(rgb[2])
}

/// `#rrggbb` for a colour triple.
pub fn hex_of(rgb: [u8; 3]) -> (text: String)
    ensures
        text@ == color_text(rgb@),
{
    let mut text = String::new();
    text.append("#");
    push_hex2(&mut text, rgb[0]);
    push_hex2(&mut text, rgb[1]);
    push_hex2(&mut text, rgb[2]);
    proof {
        assert(text@ =~= color_text(rgb@));
    }
    text
}

/// A text without its leading `#`.
pub open spec fn without_hash(text: Seq<char>) -> Seq<char> {
    if text.len() > 0 && text[0] == '#' {
        text.skip(1)
    } else {
        text
    }
}

/// The byte that two hexadecimal digits write.
pub open spec fn digit_pair(high: char, low: char) -> u8 {
    (16 * crate::text::digit_value(high)->0 + crate::text::digit_value(low)->0) as u8
}

/// The colour that `#rrggbb` or `rrggbb` writes; `None` for anything else.
pub open spec fn color_in(text: Seq<char>) -> Option<Seq<u8>> {
    let digits = without_hash(text);
    if digits.len() == 6 && crate::text::all_digits(digits, 16) {
        Some(
            seq![
                digit_pair(digits[0], digits[1]),
                digit_pair(digits[2], digits[3]),
                digit_pair(digits[4], digits[5]),
            ],
        )
    } else {
        None
    }
}

fn pair_of(high: char, low: char) -> (byte: Option<u8>)
    ensures
        match byte {
            Some(b) => crate::text::is_digit(high, 16) && crate::text::is_digit(low, 16) && b
                == digit_pair(high, low),
            None => !crate::text::is_digit(high, 16) || !crate::text::is_digit(low, 16),
        },
{
    match digit_of(high, 16) {
        None => None,
        Some(h) => match digit_of(low, 16) {
            None => None,
            Some(l) => Some(16 * h + l),
        },
    }
}

/// Parse `#rrggbb` (and `rrggbb`); `None` for anything else.
pub fn parse_hex(hex: &str) -> (rgb: Option<[u8; 3]>)
    ensures
        match rgb {
            Some(color) => color_in(hex@) == Some(color@),
            None => color_in(hex@) is None,
        },
{
    let chars = chars_of(hex);
    let from: usize = if chars.len() > 0 && chars[0] == '#' {
        1
    } else {
        0
    };
    let ghost digits = without_hash(hex@);
    proof {
        assert(digits =~= chars@.skip(from as int));
    }
    if chars.len() - from != 6 {
        return None;
    }
    let red = pair_of(chars[from], chars[from + 1]);
    let green = pair_of(chars[from + 2], chars[from + 3]);
    let blue = pair_of(chars[from + 4], chars[from + 5]);
    proof {
        assert forall|i: int| 0 <= i < 6 implies #[trigger] digits[i] == chars@[from + i] by {}
    }
    match (red, green, blue) {
        (Some(r), Some(g), Some(b)) => {
            let rgb = [r, g, b];
            proof {
                assert(rgb@ =~= color_in(hex@)->0);
            }
            Some(rgb)
        },
        _ => {
            proof {
                if crate::text::all_digits(digits, 16) {
                    assert(crate::text::is_digit(digits[0], 16));
                    assert(crate::text::is_digit(digits[1], 16));
                    assert(crate::text::is_digit(digits[2], 16));
                    assert(crate::text::is_digit(digits[3], 16));
                    assert(crate::text::is_digit(digits[4], 16));
                    assert(crate::text::is_digit(digits[5], 16));
                }
            }
            None
        },
    }
}

proof fn lemma_hex_pair(b: u8)
    ensures
        crate::text::hex2(b).len() == 2,
        crate::text::is_digit(crate::text::hex2(b)[0], 16),
        crate::text::is_digit(crate::text::hex2(b)[1], 16),
        digit_pair(crate::text::hex2(b)[0], crate::text::hex2(b)[1]) == b,
{
}

/// A colour that is shown is read back as the same colour.
pub proof fn law_colors_read_back(rgb: Seq<u8>)
    requires
        rgb.len() == 3,
    ensures
        color_in(color_text(rgb)) == Some(rgb),
{
    reveal_strlit("#");
    let text = color_text(rgb);
    let digits = without_hash(text);
    let red = crate::text::hex2(rgb[0]);
    let green = crate::text::hex2(rgb[1]);
    let blue = crate::text::hex2(rgb[2]);
    lemma_hex_pair(rgb[0]);
    lemma_hex_pair(rgb[1]);
    lemma_hex_pair(rgb[2]);
    assert(digits =~= red + green + blue);
    assert(digits[0] == red[0] && digits[1] == red[1]);
    assert(digits[2] == green[0] && digits[3] == green[1]);
    assert(digits[4] == blue[0] && digits[5] == blue[1]);
    assert forall|i: int| 0 <= i < digits.len() implies crate::text::is_digit(
        #[trigger] digits[i],
        16,
    ) by {
        assert(i == 0 || i == 1 || i == 2 || i == 3 || i == 4 || i == 5);
    }
    assert(color_in(text)->0 =~= rgb);
}

pub fn level_ok(level: i32) -> (ok: bool)
    ensures
        ok == (0 <= level < 8),
{
    0 <= level && level < LEVELS as i32
}

/// `value` brought into a range.
pub open spec fn clamped(value: i32, low: i32, high: i32) -> i32 {
    if value < low {
        low
    } else if value > high {
        high
    } else {
        value
    }
}

fn clamp(value: i32, low: i32, high: i32) -> (inside: i32)
    ensures
        inside == clamped(value, low, high),
{
    if value < low {
        low
    } else if value > high {
        high
    } else {
        value
    }
}

// ---------------------------------------------------------------------------
// what the device does
// ---------------------------------------------------------------------------

/// A state and what is to be done outside.
pub struct Reaction {
    pub state: DeviceView,
    pub effects: Seq<EffectView>,
}

/// A command goes to the device thread, if there is one.
pub open spec fn sent(d: DeviceView, command: CommandView) -> Seq<EffectView> {
    if d.worker {
        seq![EffectView::Send(command)]
    } else {
        Seq::empty()
    }
}

pub open spec fn sends(d: DeviceView, command: CommandView) -> Reaction {
    Reaction { state: d, effects: sent(d, command) }
}

pub open spec fn ignored(d: DeviceView) -> Reaction {
    Reaction { state: d, effects: Seq::empty() }
}

/// An edit: the block in memory changes at once, and is handed to the device
/// thread under the next generation.
pub open spec fn edits(d: DeviceView, block: Seq<u8>) -> Reaction {
    let generation = (d.generation + 1) as u64;
    let state = DeviceView { block, generation, ..d };
    Reaction { state, effects: sent(state, CommandView::ApplyBlock { block, generation }) }
}

/// An edit that is refused before a block has been read.
pub open spec fn edits_if_loaded(d: DeviceView, block: Seq<u8>) -> Reaction {
    if d.block_loaded {
        edits(d, block)
    } else {
        Reaction {
            state: d,
            effects: seq![EffectView::Notified("Waiting for the device settings to load"@)],
        }
    }
}

/// The code of the table's entry nearest to a DPI.
pub open spec fn nearest_code(dpi: u16) -> u16 {
    choose|code: u16| crate::settings::is_nearest_code(dpi, code)
}

/// Every DPI has a nearest entry, and one only.
pub proof fn lemma_nearest_code(dpi: u16)
    ensures
        crate::settings::is_nearest_code(dpi, nearest_code(dpi)),
{
    crate::profile::law_every_dpi_has_a_nearest_code(dpi);
}

/// The code that a wanted DPI puts into a slot: 0 means "no value" only for a
/// slot outside the profile.
pub open spec fn code_for(block: Seq<u8>, level: i32, dpi: i32) -> u16 {
    if dpi > 0 {
        nearest_code(clamped(dpi, 0, 65535) as u16)
    } else if level >= crate::settings::level_count(block) {
        0
    } else {
        nearest_code(200)
    }
}

/// The state word shown above the battery line.
pub open spec fn state_word(d: DeviceView) -> Seq<char> {
    if !d.connected {
        "No device"@
    } else if d.charging {
        "Charging"@
    } else {
        "On battery"@
    }
}

/// What is shown of a connected device, where `psd` is its text.
pub open spec fn info_text(path: Seq<char>, pid: u16, psd: Seq<char>, mode: u8, bank: u8) -> Seq<
    char,
> {
    path + "  "@ + crate::text::hex4(VENDOR) + ":"@ + crate::text::hex4(pid) + "  psd "@ + psd
        + "  mode "@ + crate::text::decimal(mode as nat) + "  bank "@ + crate::text::decimal(
        bank as nat,
    )
}

/// The state with another status text, which is also shown.
pub open spec fn shows(
    d: DeviceView,
    effects: Seq<EffectView>,
    text: Seq<char>,
) -> Reaction {
    Reaction {
        state: DeviceView { status_text: text, ..d },
        effects: effects.push(EffectView::SetStatusText(text)),
    }
}

/// What a new connection does, where `psd` is the text of its psd.
pub open spec fn connects(
    d: DeviceView,
    path: Seq<char>,
    pid: u16,
    psd: Seq<char>,
    mode: u8,
    bank: u8,
) -> Reaction {
    let info = info_text(path, pid, psd, mode, bank);
    let state = DeviceView {
        connected: true,
        device_info: info,
        mode: mode as i32,
        bank_value: bank as i32,
        ..d
    };
    shows(
        state,
        seq![EffectView::SetConnected(true)].push(EffectView::SetDeviceInfo(info)).push(
            EffectView::SetMode(mode as i32),
        ),
        state_word(state),
    )
}

/// What an event of the device thread does.
pub open spec fn reacts(d: DeviceView, event: EventView) -> Reaction {
    match event {
        EventView::Connected { path, pid, psd, mode, bank } => connects(
            d,
            path,
            pid,
            crate::text::lossy_utf8(psd),
            mode,
            bank,
        ),
        EventView::Disconnected(reason) => {
            let text = "No device: "@ + reason;
            Reaction {
                state: DeviceView {
                    connected: false,
                    battery: -1i32,
                    status_text: text,
                    device_info: Seq::empty(),
                    ..d
                },
                effects: seq![EffectView::SetConnected(false)].push(EffectView::SetBattery(-1i32)).push(
                    EffectView::SetStatusText(text),
                ).push(EffectView::SetDeviceInfo(Seq::empty())),
            }
        },
        // `-1` is the shell's "unknown": no charge has been seen on battery yet, and
        // the device reports none while charging.
        EventView::Status { charging, percent } => {
            let battery = match percent {
                Some(percent) => percent as i32,
                None => -1i32,
            };
            let state = DeviceView { battery, charging, ..d };
            shows(
                state,
                seq![EffectView::SetBattery(battery)].push(EffectView::SetCharging(charging)),
                state_word(state),
            )
        },
        EventView::Block { block, generation, verified } => if generation < d.generation {
            // A newer edit is already in flight; this block is stale.
            ignored(d)
        } else if !verified {
            Reaction {
                state: d,
                effects: seq![EffectView::Notified("Read-back mismatch - reloading"@)] + sent(
                    d,
                    CommandView::Reload,
                ),
            }
        } else {
            Reaction {
                state: DeviceView { block, block_loaded: true, ..d },
                effects: seq![EffectView::BlockChanged],
            }
        },
        EventView::Busy { busy, label } => if !busy {
            shows(d, Seq::empty(), state_word(d))
        } else if label.len() > 0 {
            shows(d, Seq::empty(), label)
        } else {
            ignored(d)
        },
        EventView::Note(message) => Reaction {
            state: d,
            effects: seq![EffectView::Notified(message)],
        },
        EventView::Mode(mode) => Reaction {
            state: DeviceView { mode: mode as i32, ..d },
            effects: seq![EffectView::SetMode(mode as i32)],
        },
        EventView::Error(message) => Reaction {
            state: d,
            effects: seq![EffectView::ErrorOccurred(message)],
        },
    }
}

/// What follows from an attempt to start the device thread. Without the thread
/// every invokable is a silent no-op, which looks exactly like a mouse that is
/// not plugged in, so a failure is shown.
pub open spec fn started(d: DeviceView, failure: Option<Seq<char>>) -> Reaction {
    match failure {
        None => sends(DeviceView { worker: true, ..d }, CommandView::Reload),
        Some(text) => {
            let message = "could not start the device thread: "@ + text;
            Reaction {
                state: DeviceView { status_text: message, ..d },
                effects: seq![EffectView::SetStatusText(message)].push(
                    EffectView::ErrorOccurred(message),
                ),
            }
        },
    }
}

// ---------------------------------------------------------------------------
// lists of effects
// ---------------------------------------------------------------------------

fn with_effect(effects: Vec<Effect>, effect: Effect) -> (more: Vec<Effect>)
    ensures
        effect_views(more@) == effect_views(effects@).push(effect@),
{
    let mut more = effects;
    more.push(effect);
    proof {
        assert(effect_views(more@) =~= effect_views(effects@).push(effect@));
    }
    more
}

fn no_effects() -> (effects: Vec<Effect>)
    ensures
        effect_views(effects@) == Seq::<EffectView>::empty(),
{
    let effects: Vec<Effect> = Vec::new();
    proof {
        assert(effect_views(effects@) =~= Seq::<EffectView>::empty());
    }
    effects
}

fn one_effect(effect: Effect) -> (effects: Vec<Effect>)
    ensures
        effect_views(effects@) == seq![effect@],
{
    with_effect(no_effects(), effect)
}

/// What is shown of a connected device, where `psd` is its text.
pub fn device_info_text(path: &str, pid: u16, psd: &str, mode: u8, bank: u8) -> (info: String)
    ensures
        info@ == info_text(path@, pid, psd@, mode, bank),
{
    let mut info = String::new();
    info.append(path);
    info.append("  ");
    push_hex4(&mut info, VENDOR);
    info.append(":");
    push_hex4(&mut info, pid);
    info.append("  psd ");
    info.append(psd);
    info.append("  mode ");
    push_decimal(&mut info, mode as u64);
    info.append("  bank ");
    push_decimal(&mut info, bank as u64);
    proof {
        assert(info@ =~= info_text(path@, pid, psd@, mode, bank));
    }
    info
}

fn nearest(dpi: u16) -> (code: u16)
    ensures
        code == nearest_code(dpi),
{
    let code = dpi_to_code(dpi);
    proof {
        crate::profile::law_nearest_code_is_unique(dpi, code, nearest_code(dpi));
    }
    code
}

fn message_of(head: &str, tail: &str) -> (text: String)
    ensures
        text@ == head@ + tail@,
{
    let mut text = String::new();
    text.append(head);
    text.append(tail);
    proof {
        assert(text@ =~= head@ + tail@);
    }
    text
}

// ---------------------------------------------------------------------------
// the device
// ---------------------------------------------------------------------------

/// The device behind the Qt object.
pub struct Device {
    pub inner: DeviceRust,
}

impl View for Device {
    type V = DeviceView;

    open spec fn view(&self) -> DeviceView {
        self.inner@
    }
}

/// A reaction of a device.
pub open spec fn reaction(device: Device, effects: Vec<Effect>) -> Reaction {
    Reaction { state: device@, effects: effect_views(effects@) }
}

impl Default for Device {
    fn default() -> (device: Self)
        ensures
            is_blank(device@),
    {
        Device { inner: DeviceRust::default() }
    }
}

impl Device {
    pub fn send(&self, command: Command) -> (effects: Vec<Effect>)
        ensures
            effect_views(effects@) == sent(self@, command@),
    {
        if self.inner.worker {
            one_effect(Effect::Send(command))
        } else {
            no_effects()
        }
    }

    /// Take an edited block and schedule one debounced write.
    pub fn edit_block(&mut self, edited: SettingsBlock) -> (effects: Vec<Effect>)
        requires
            old(self)@.generation < u64::MAX,
        ensures
            reaction(*final(self), effects) == edits(old(self)@, edited@),
    {
        let block = *edited.raw();
        self.inner.block = edited;
        let generation = self.inner.generation + 1;
        self.inner.generation = generation;
        self.send(Command::ApplyBlock { block, generation })
    }

    /// Refuse edits until a block has been read: before that the in-memory block
    /// is a placeholder, and writing it back would replace the profile with
    /// zeros. `None` if there is one.
    pub fn ensure_block_loaded(&self) -> (refusal: Option<Vec<Effect>>)
        ensures
            match refusal {
                None => self@.block_loaded,
                Some(effects) => !self@.block_loaded && effect_views(effects@) == seq![
                    EffectView::Notified("Waiting for the device settings to load"@),
                ],
            },
    {
        if self.inner.block_loaded {
            return None;
        }
        Some(one_effect(Effect::Notified("Waiting for the device settings to load".to_string())))
    }

    fn edit_if_loaded(&mut self, edited: SettingsBlock) -> (effects: Vec<Effect>)
        requires
            old(self)@.block_loaded ==> old(self)@.generation < u64::MAX,
        ensures
            reaction(*final(self), effects) == edits_if_loaded(old(self)@, edited@),
    {
        match self.ensure_block_loaded() {
            Some(effects) => effects,
            None => self.edit_block(edited),
        }
    }

    // -- invokables the shell drives -----------------------------------------

    /// The device thread is started once; see `worker_spawned`.
    pub fn start(&mut self) -> (effects: Vec<Effect>)
        ensures
            final(self)@ == old(self)@,
            effect_views(effects@) == if old(self)@.worker {
                Seq::empty()
            } else {
                seq![EffectView::Spawn]
            },
            reaction(*final(self), effects) == crate::device_laws::responds(
                old(self)@,
                crate::device_laws::Input::Start,
            ),
    {
        if self.inner.worker {
            return no_effects();
        }
        one_effect(Effect::Spawn)
    }

    /// The device thread was started, or could not be.
    pub fn worker_spawned(&mut self, outcome: Result<(), String>) -> (effects: Vec<Effect>)
        ensures
            reaction(*final(self), effects) == started(
                old(self)@,
                match outcome {
                    Ok(()) => None,
                    Err(text) => Some(text@),
                },
            ),
            reaction(*final(self), effects) == crate::device_laws::responds(
                old(self)@,
                crate::device_laws::Input::Spawned(
                    match outcome {
                        Ok(()) => None,
                        Err(text) => Some(text@),
                    },
                ),
            ),
    {
        match outcome {
            Ok(()) => {
                self.inner.worker = true;
                self.send(Command::Reload)
            },
            Err(text) => {
                let message = message_of("could not start the device thread: ", text.as_str());
                self.inner.status_text = message.clone();
                with_effect(
                    one_effect(Effect::SetStatusText(message.clone())),
                    Effect::ErrorOccurred(message),
                )
            },
        }
    }

    /// Wait for queued commands before exiting, so a debounced edit is not lost.
    pub fn shutdown(&mut self) -> (effects: Vec<Effect>)
        ensures
            final(self)@ == old(self)@,
            effect_views(effects@) == if old(self)@.worker {
                seq![EffectView::Drain { seconds: WORKER_DRAIN_SECS }]
            } else {
                Seq::empty()
            },
            reaction(*final(self), effects) == crate::device_laws::responds(
                old(self)@,
                crate::device_laws::Input::Shutdown,
            ),
    {
        if self.inner.worker {
            one_effect(Effect::Drain { seconds: WORKER_DRAIN_SECS })
        } else {
            no_effects()
        }
    }

    pub fn refresh(&mut self) -> (effects: Vec<Effect>)
        ensures
            reaction(*final(self), effects) == sends(old(self)@, CommandView::Refresh),
            reaction(*final(self), effects) == crate::device_laws::responds(
                old(self)@,
                crate::device_laws::Input::Refresh,
            ),
    {
        self.send(Command::Refresh)
    }

    pub fn reload(&mut self) -> (effects: Vec<Effect>)
        ensures
            reaction(*final(self), effects) == sends(old(self)@, CommandView::Reload),
            reaction(*final(self), effects) == crate::device_laws::responds(
                old(self)@,
                crate::device_laws::Input::Reload,
            ),
    {
        self.send(Command::Reload)
    }

    /// The rate is taken modulo 2^16; one that is not in the table changes
    /// nothing but counts as an edit.
    pub fn apply_rate(&mut self, hz: i32) -> (effects: Vec<Effect>)
        requires
            old(self)@.block_loaded ==> old(self)@.generation < u64::MAX,
        ensures
            reaction(*final(self), effects) == edits_if_loaded(
                old(self)@,
                crate::settings::with_rate(old(self)@.block, (hz as int % 65536) as u16),
            ),
            reaction(*final(self), effects) == crate::device_laws::responds(
                old(self)@,
                crate::device_laws::Input::Rate(hz),
            ),
    {
        let rate = hz as u16;
        proof {
            assert(rate == (hz as int % 65536) as u16) by {
                assert(hz as u16 == hz % 65536) by (bit_vector);
            }
        }
        let mut edited = self.inner.block.clone();
        edited.set_rate_hz(rate);
        self.edit_if_loaded(edited)
    }

    pub fn apply_dpi(&mut self, level: i32, dpi: i32) -> (effects: Vec<Effect>)
        requires
            old(self)@.block_loaded && 0 <= level < 8 ==> old(self)@.generation < u64::MAX,
        ensures
            reaction(*final(self), effects) == if 0 <= level < 8 {
                edits_if_loaded(
                    old(self)@,
                    crate::settings::with_code(
                        old(self)@.block,
                        level as int,
                        code_for(old(self)@.block, level, dpi),
                    ),
                )
            } else {
                ignored(old(self)@)
            },
            reaction(*final(self), effects) == crate::device_laws::responds(
                old(self)@,
                crate::device_laws::Input::Dpi { level, dpi },
            ),
    {
        if !level_ok(level) {
            return no_effects();
        }
        let code = if dpi > 0 {
            nearest(clamp(dpi, 0, 65535) as u16)
        } else if level as u8 >= self.inner.block.enabled_levels() {
            0
        } else {
            nearest(DPI_STEPS[0])
        };
        let mut edited = self.inner.block.clone();
        edited.set_dpi_code(level as u8, code);
        self.edit_if_loaded(edited)
    }

    /// Removal shifts the later levels down: the device has no per-slot "disabled".
    pub fn set_level_enabled(&mut self, level: i32, enabled: bool) -> (effects: Vec<Effect>)
        requires
            old(self)@.block_loaded && 0 <= level < 8 ==> old(self)@.generation < u64::MAX,
        ensures
            reaction(*final(self), effects) == if 0 <= level < 8 {
                edits_if_loaded(
                    old(self)@,
                    if enabled {
                        crate::settings::with_level_added(old(self)@.block, level as u8)
                    } else {
                        crate::settings::with_level_removed(old(self)@.block, level as u8)
                    },
                )
            } else {
                ignored(old(self)@)
            },
            reaction(*final(self), effects) == crate::device_laws::responds(
                old(self)@,
                crate::device_laws::Input::Level { level, enabled },
            ),
    {
        if !level_ok(level) {
            return no_effects();
        }
        let mut edited = self.inner.block.clone();
        if enabled {
            edited.add_level(level as u8);
        } else {
            edited.remove_level(level as u8);
        }
        self.edit_if_loaded(edited)
    }

    pub fn factory_reset(&mut self, backup_path: &str) -> (effects: Vec<Effect>)
        ensures
            reaction(*final(self), effects) == sends(
                old(self)@,
                CommandView::FactoryReset { backup_path: backup_path@ },
            ),
            reaction(*final(self), effects) == crate::device_laws::responds(
                old(self)@,
                crate::device_laws::Input::FactoryReset(backup_path@),
            ),
    {
        self.send(Command::FactoryReset { backup_path: backup_path.to_string() })
    }

    /// A text that is no colour changes nothing.
    pub fn apply_color(&mut self, level: i32, hex: &str) -> (effects: Vec<Effect>)
        requires
            old(self)@.block_loaded && 0 <= level < 8 && color_in(hex@) is Some
                ==> old(self)@.generation < u64::MAX,
        ensures
            reaction(*final(self), effects) == if !(0 <= level < 8) {
                ignored(old(self)@)
            } else if !old(self)@.block_loaded {
                edits_if_loaded(old(self)@, old(self)@.block)
            } else {
                match color_in(hex@) {
                    None => ignored(old(self)@),
                    Some(rgb) => edits(
                        old(self)@,
                        crate::settings::with_color(old(self)@.block, level as int, rgb),
                    ),
                }
            },
            reaction(*final(self), effects) == crate::device_laws::responds(
                old(self)@,
                crate::device_laws::Input::Color { level, hex: hex@ },
            ),
    {
        if !level_ok(level) {
            return no_effects();
        }
        if let Some(effects) = self.ensure_block_loaded() {
            return effects;
        }
        match parse_hex(hex) {
            None => no_effects(),
            Some(rgb) => {
                let mut edited = self.inner.block.clone();
                edited.set_color(level as u8, rgb);
                self.edit_block(edited)
            },
        }
    }

    pub fn apply_lod(&mut self, value: i32) -> (effects: Vec<Effect>)
        requires
            old(self)@.block_loaded ==> old(self)@.generation < u64::MAX,
        ensures
            reaction(*final(self), effects) == edits_if_loaded(
                old(self)@,
                old(self)@.block.update(0x3d, clamped(value, 0, 255) as u8),
            ),
            reaction(*final(self), effects) == crate::device_laws::responds(
                old(self)@,
                crate::device_laws::Input::Lod(value),
            ),
    {
        let mut edited = self.inner.block.clone();
        edited.set_lod(clamp(value, 0, 255) as u8);
        self.edit_if_loaded(edited)
    }

    pub fn send_mode(&mut self, mode: i32) -> (effects: Vec<Effect>)
        ensures
            reaction(*final(self), effects) == sends(
                old(self)@,
                CommandView::SetMode(clamped(mode, 1, 3) as u8),
            ),
            reaction(*final(self), effects) == crate::device_laws::responds(
                old(self)@,
                crate::device_laws::Input::Mode(mode),
            ),
    {
        self.send(Command::SetMode(clamp(mode, 1, 3) as u8))
    }

    pub fn send_debounce(&mut self, value: i32) -> (effects: Vec<Effect>)
        ensures
            reaction(*final(self), effects) == sends(
                DeviceView { debounce_value: clamped(value, 0, 255), ..old(self)@ },
                CommandView::SetDebounce(clamped(value, 0, 255) as u8),
            ),
            reaction(*final(self), effects) == crate::device_laws::responds(
                old(self)@,
                crate::device_laws::Input::Debounce(value),
            ),
    {
        let value = clamp(value, 0, 255);
        self.inner.debounce_value = value;
        self.send(Command::SetDebounce(value as u8))
    }

    pub fn backup(&mut self, path: &str) -> (effects: Vec<Effect>)
        ensures
            reaction(*final(self), effects) == sends(
                old(self)@,
                CommandView::Backup { path: path@ },
            ),
            reaction(*final(self), effects) == crate::device_laws::responds(
                old(self)@,
                crate::device_laws::Input::Backup(path@),
            ),
    {
        self.send(Command::Backup { path: path.to_string() })
    }

    pub fn restore(&mut self, path: &str) -> (effects: Vec<Effect>)
        ensures
            reaction(*final(self), effects) == sends(
                old(self)@,
                CommandView::Restore { path: path@ },
            ),
            reaction(*final(self), effects) == crate::device_laws::responds(
                old(self)@,
                crate::device_laws::Input::Restore(path@),
            ),
    {
        self.send(Command::Restore { path: path.to_string() })
    }

    // -- getters the view pulls after the block changed -----------------------

    pub fn dpi_step_count(&self) -> (count: i32)
        ensures
            count == DPI_STEPS@.len(),
    {
        59
    }

    /// An index below the table stands for its first entry; one above it has no
    /// entry, which is 0.
    pub fn dpi_step(&self, index: i32) -> (dpi: i32)
        ensures
            dpi == if index <= 0 {
                DPI_STEPS@[0]
            } else if index < 59 {
                DPI_STEPS@[index as int]
            } else {
                0
            },
    {
        if index <= 0 {
            DPI_STEPS[0] as i32
        } else if index < 59 {
            DPI_STEPS[index as usize] as i32
        } else {
            0
        }
    }

    pub fn dpi_value(&self, level: i32) -> (dpi: i32)
        ensures
            dpi == if 0 <= level < 8 {
                crate::settings::dpi_of_code(crate::settings::code_at(self@.block, level as int))
            } else {
                0
            },
    {
        if level_ok(level) {
            self.inner.block.dpi_value(level as u8) as i32
        } else {
            0
        }
    }

    pub fn dpi_color(&self, level: i32) -> (text: String)
        ensures
            text@ == if 0 <= level < 8 {
                color_text(crate::settings::color_at(self@.block, level as int))
            } else {
                Seq::empty()
            },
    {
        if level_ok(level) {
            hex_of(self.inner.block.color(level as u8))
        } else {
            let text = String::new();
            proof {
                assert(text@ =~= Seq::<char>::empty());
            }
            text
        }
    }

    /// Whether the level is part of the profile, which is the level count - not
    /// whether its slot happens to hold a DPI value.
    pub fn dpi_enabled(&self, level: i32) -> (yes: bool)
        ensures
            yes == (0 <= level < crate::settings::level_count(self@.block)),
    {
        level_ok(level) && (level as u8) < self.inner.block.enabled_levels()
    }

    pub fn rate_hz(&self) -> (hz: i32)
        ensures
            hz == crate::settings::rate_of(self@.block),
    {
        self.inner.block.rate_hz() as i32
    }

    /// The UI compares this with its row index, so it is the 0-based index.
    pub fn current_level(&self) -> (index: i32)
        ensures
            index == crate::settings::level_index(self@.block),
    {
        self.inner.block.active_index() as i32
    }

    pub fn enabled_levels(&self) -> (count: i32)
        ensures
            count == crate::settings::level_count(self@.block),
    {
        self.inner.block.enabled_levels() as i32
    }

    pub fn lod(&self) -> (v: i32)
        ensures
            v == self@.block[0x3d],
    {
        self.inner.block.lod() as i32
    }

    pub fn debounce(&self) -> (value: i32)
        ensures
            value == self@.debounce_value,
    {
        self.inner.debounce_value
    }

    pub fn bank(&self) -> (bank: i32)
        ensures
            bank == self@.bank_value,
    {
        self.inner.bank_value
    }

    pub fn block_hex(&self) -> (text: String)
        ensures
            text@ == crate::settings::dump_rows(self@.block, 10),
    {
        self.inner.block.hex_dump()
    }

    /// The state word shown above the battery line.
    pub fn state_text(&self) -> (text: String)
        ensures
            text@ == state_word(self@),
    {
        if !self.inner.connected {
            "No device".to_string()
        } else if self.inner.charging {
            "Charging".to_string()
        } else {
            "On battery".to_string()
        }
    }

    // -- events of the device thread ------------------------------------------

    fn show(&mut self, effects: Vec<Effect>, text: String) -> (more: Vec<Effect>)
        ensures
            reaction(*final(self), more) == shows(old(self)@, effect_views(effects@), text@),
    {
        self.inner.status_text = text.clone();
        with_effect(effects, Effect::SetStatusText(text))
    }

    pub fn handle_event(&mut self, event: Event) -> (effects: Vec<Effect>)
        ensures
            reaction(*final(self), effects) == reacts(old(self)@, event@),
            reaction(*final(self), effects) == crate::device_laws::responds(
                old(self)@,
                crate::device_laws::Input::Event(event@),
            ),
            event@ matches EventView::Connected { path, pid, psd, mode, bank }
                ==> vstd::utf8::valid_utf8(psd) ==> reaction(*final(self), effects) == connects(
                old(self)@,
                path,
                pid,
                vstd::utf8::decode_utf8(psd),
                mode,
                bank,
            ),
    {
        match event {
            Event::Connected { path, pid, psd, mode, bank } => {
                let psd_text = utf8_lossy(psd.as_slice());
                let info = device_info_text(path.as_str(), pid, psd_text.as_str(), mode, bank);
                self.inner.connected = true;
                self.inner.device_info = info.clone();
                self.inner.mode = mode as i32;
                self.inner.bank_value = bank as i32;
                let state = self.state_text();
                let effects = with_effect(
                    with_effect(
                        one_effect(Effect::SetConnected(true)),
                        Effect::SetDeviceInfo(info),
                    ),
                    Effect::SetMode(mode as i32),
                );
                self.show(effects, state)
            },
            Event::Disconnected(reason) => {
                let text = message_of("No device: ", reason.as_str());
                self.inner.connected = false;
                self.inner.battery = -1;
                self.inner.status_text = text.clone();
                self.inner.device_info = String::new();
                let nothing = String::new();
                proof {
                    assert(nothing@ =~= Seq::<char>::empty());
                    assert(self.inner.device_info@ =~= Seq::<char>::empty());
                }
                with_effect(
                    with_effect(
                        with_effect(
                            one_effect(Effect::SetConnected(false)),
                            Effect::SetBattery(-1),
                        ),
                        Effect::SetStatusText(text),
                    ),
                    Effect::SetDeviceInfo(nothing),
                )
            },
            Event::Status { charging, percent } => {
                let battery: i32 = match percent {
                    Some(percent) => percent as i32,
                    None => -1,
                };
                self.inner.battery = battery;
                self.inner.charging = charging;
                let state = self.state_text();
                self.show(
                    with_effect(
                        one_effect(Effect::SetBattery(battery)),
                        Effect::SetCharging(charging),
                    ),
                    state,
                )
            },
            Event::Block { block, generation, verified } => {
                if generation < self.inner.generation {
                    return no_effects();
                }
                if !verified {
                    let note = Effect::Notified("Read-back mismatch - reloading".to_string());
                    let mut effects = one_effect(note);
                    if self.inner.worker {
                        effects = with_effect(effects, Effect::Send(Command::Reload));
                    }
                    proof {
                        assert(effect_views(effects@) =~= seq![
                            EffectView::Notified("Read-back mismatch - reloading"@),
                        ] + sent(self@, CommandView::Reload));
                    }
                    return effects;
                }
                self.inner.block = SettingsBlock::new(block);
                self.inner.block_loaded = true;
                one_effect(Effect::BlockChanged)
            },
            Event::Busy { busy, label } => {
                if !busy {
                    let state = self.state_text();
                    self.show(no_effects(), state)
                } else if chars_of(label.as_str()).len() > 0 {
                    self.show(no_effects(), label)
                } else {
                    no_effects()
                }
            },
            Event::Note(message) => one_effect(Effect::Notified(message)),
            Event::Mode(mode) => {
                self.inner.mode = mode as i32;
                one_effect(Effect::SetMode(mode as i32))
            },
            Event::Error(message) => one_effect(Effect::ErrorOccurred(message)),
        }
    }
}

} // verus!
