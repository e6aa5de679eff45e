//! The status display of the Lily58 Pro: a 128x32 OLED on the I2C bus.
//!
//! The controller follows the controller events, draws the four lines of the screen
//! into its framebuffer and hands out one bus packet after the other. The firmware
//! writes each packet and reports the outcome with [`OledController::write_done`].

use crate::event::ControllerEvent;
use crate::font::{glyph, glyph_of, law_glyphs_are_their_pictures};
use vstd::prelude::*;
use vstd::string::*;

verus! {

/// The bus address of the display.
pub const OLED_ADDR: u8 = 0x3C;

/// Pixel columns.
pub const OLED_WIDTH: usize = 128;

/// Rows of eight pixels.
pub const OLED_PAGES: usize = 4;

pub const OLED_BUF_SIZE: usize = OLED_WIDTH * OLED_PAGES;

/// How long a bus write may take.
pub const OLED_I2C_TIMEOUT_MS: u64 = 2;

/// How often [`OledController::update`] is due.
pub const UPDATE_INTERVAL_MS: u64 = 250;

/// What the screen tells.
#[derive(Clone, Copy, Debug, PartialEq, Eq, Structural)]
pub struct Status {
    pub layer: u8,
    pub battery: Option<u8>,
    pub charging: bool,
    /// 0 for USB, anything else for Bluetooth.
    pub connection_type: u8,
    pub ble_profile: u8,
    pub peripheral_connected: bool,
    pub sleeping: bool,
}

/// What the packets under way are for.
#[derive(Clone, Copy, Debug, PartialEq, Eq, Structural)]
pub enum Stage {
    /// Nothing is under way.
    Idle,
    /// The display is being set up.
    Init,
    /// The display is being set up, and the first screen is to follow.
    Boot,
    /// A screen is being transferred.
    Flush,
}

pub struct OledController {
    pub status: Status,
    /// Whether the display answers.
    pub available: bool,
    /// Whether the status has changed since the last drawing.
    pub dirty: bool,
    pub framebuffer: [u8; OLED_BUF_SIZE],
    /// The packets still to be written.
    pub outbox: Vec<Vec<u8>>,
    pub stage: Stage,
}

/// An [`OledController`] in values.
#[verifier::ext_equal]
pub struct OledView {
    pub status: Status,
    pub available: bool,
    pub dirty: bool,
    pub framebuffer: Seq<u8>,
    pub outbox: Seq<Seq<u8>>,
    pub stage: Stage,
}

impl View for OledController {
    type V = OledView;

    open spec fn view(&self) -> OledView {
        OledView {
            status: self.status,
            available: self.available,
            dirty: self.dirty,
            framebuffer: self.framebuffer@,
            outbox: self.outbox@.map_values(|packet: Vec<u8>| packet@),
            stage: self.stage,
        }
    }
}

/// A character cell: the glyph and a blank column.
pub open spec fn cell(ch: u8) -> Seq<u8> {
    glyph_of(ch).push(0)
}

/// Where the cell in column `col` of page `page` starts in the framebuffer.
pub open spec fn cell_start(page: int, col: int) -> int {
    page * OLED_WIDTH + col * 6
}

/// A framebuffer with one cell drawn over it, provided the whole cell fits.
pub open spec fn with_char(fb: Seq<u8>, page: int, col: int, ch: u8) -> Seq<u8> {
    let start = cell_start(page, col);
    Seq::new(
        fb.len(),
        |i: int|
            if start <= i < start + 6 && start + 5 < fb.len() {
                cell(ch)[i - start]
            } else {
                fb[i]
            },
    )
}

/// A framebuffer with a text drawn over it from column `col` of page `page` on. Cells
/// that do not fit are left out.
pub open spec fn with_text(fb: Seq<u8>, page: int, col: int, text: Seq<u8>) -> Seq<u8> {
    let start = cell_start(page, col);
    Seq::new(
        fb.len(),
        |i: int|
            {
                let k = (i - start) / 6;
                if start <= i && k < text.len() && start + 6 * k + 5 < fb.len() {
                    cell(text[k])[(i - start) % 6]
                } else {
                    fb[i]
                }
            },
    )
}

/// A number as the display shows it. There is room for no more than 100.
pub open spec fn digits(value: u8) -> Seq<u8> {
    if value >= 100 {
        seq![0x31u8, 0x30, 0x30]
    } else if value >= 10 {
        seq![(0x30 + value / 10) as u8, (0x30 + value % 10) as u8]
    } else {
        seq![(0x30 + value) as u8]
    }
}

/// A line of text, filled up with spaces to the given width.
pub open spec fn padded(line: Seq<u8>, width: int) -> Seq<u8> {
    line + Seq::new((width - line.len()) as nat, |_i: int| 0x20u8)
}

/// The framebuffer that shows the given lines, one per page, on an empty screen.
pub open spec fn rendered(lines: Seq<Seq<u8>>) -> Seq<u8> {
    Seq::new(
        OLED_BUF_SIZE as nat,
        |i: int|
            {
                let line = lines[i / 128];
                let x = i % 128;
                if x / 6 < line.len() {
                    cell(line[x / 6])[x % 6]
                } else {
                    0
                }
            },
    )
}

/// Four empty lines.
spec fn blank_lines() -> Seq<Seq<u8>> {
    let none = Seq::<u8>::empty();
    seq![none, none, none, none]
}

/// The line about the connection.
pub open spec fn connection_line(s: Status) -> Seq<u8> {
    if s.connection_type == 0 {
        "USB".spec_bytes()
    } else {
        padded("BLE P".spec_bytes(), 6) + digits(
            if s.ble_profile < 255 {
                (s.ble_profile + 1) as u8
            } else {
                255
            },
        )
    }
}

/// The line about the battery and the other half of the keyboard.
pub open spec fn power_line(s: Status) -> Seq<u8> {
    let level = if s.charging {
        "CHG".spec_bytes()
    } else {
        match s.battery {
            Some(level) => digits(level),
            None => "--".spec_bytes(),
        }
    };
    let peripheral = if s.peripheral_connected {
        "OK".spec_bytes()
    } else {
        "--".spec_bytes()
    };
    padded("BAT ".spec_bytes() + level, 9) + "R ".spec_bytes() + peripheral
}

/// The four lines of the screen.
pub open spec fn screen_lines(s: Status) -> Seq<Seq<u8>> {
    if s.sleeping {
        seq![
            "SLEEP".spec_bytes(),
            "WAKE KEY".spec_bytes(),
            "TO RESUME".spec_bytes(),
            "LILY58".spec_bytes(),
        ]
    } else {
        seq![
            "LILY58 OLED".spec_bytes(),
            "LAYER ".spec_bytes() + digits(s.layer),
            connection_line(s),
            power_line(s),
        ]
    }
}

/// The framebuffer that shows a status.
pub open spec fn screen(s: Status) -> Seq<u8> {
    rendered(screen_lines(s))
}

/// The packets that carry commands: up to 31 of them behind a zero.
pub open spec fn command_packets(commands: Seq<u8>) -> Seq<Seq<u8>>
    decreases commands.len(),
{
    if commands.len() == 0 {
        Seq::empty()
    } else if commands.len() <= 31 {
        seq![seq![0x00u8] + commands]
    } else {
        seq![seq![0x00u8] + commands.take(31)] + command_packets(commands.skip(31))
    }
}

/// The commands that set the display up.
pub open spec fn init_commands() -> Seq<u8> {
    seq![
        0xAEu8, 0xD5, 0x80, 0xA8, 0x1F, 0xD3, 0x00, 0x40, 0x8D, 0x14, 0x20, 0x00, 0xA1, 0xC8,
        0xDA, 0x02, 0x81, 0x8F, 0xD9, 0xF1, 0xDB, 0x40, 0xA4, 0xA6, 0xAF,
    ]
}

/// The packet with 16 bytes of a framebuffer, counted in chunks from the start of a page.
pub open spec fn data_packet(fb: Seq<u8>, page: int, chunk: int) -> Seq<u8> {
    seq![0x40u8] + fb.subrange(
        page * OLED_WIDTH + chunk * 16,
        page * OLED_WIDTH + chunk * 16 + 16,
    )
}

/// The packets that transfer one page: its address, then its bytes.
pub open spec fn page_packets(fb: Seq<u8>, page: int) -> Seq<Seq<u8>> {
    command_packets(seq![(0xB0 + page) as u8, 0x00, 0x10]) + Seq::new(
        8,
        |chunk: int| data_packet(fb, page, chunk),
    )
}

/// The packets that transfer the first `pages` pages.
pub open spec fn flush_packets(fb: Seq<u8>, pages: nat) -> Seq<Seq<u8>>
    decreases pages,
{
    if pages == 0 {
        Seq::empty()
    } else {
        flush_packets(fb, (pages - 1) as nat) + page_packets(fb, pages - 1)
    }
}

impl OledView {
    /// The controller at power-on.
    pub open spec fn initial() -> OledView {
        OledView {
            status: Status {
                layer: 0,
                battery: None,
                charging: false,
                connection_type: 1,
                ble_profile: 0,
                peripheral_connected: false,
                sleeping: false,
            },
            available: true,
            dirty: true,
            framebuffer: Seq::new(OLED_BUF_SIZE as nat, |_i: int| 0u8),
            outbox: Seq::empty(),
            stage: Stage::Idle,
        }
    }

    /// Packets are under way exactly while something is going on.
    pub open spec fn wf(self) -> bool {
        self.stage == Stage::Idle <==> self.outbox.len() == 0
    }

    /// The controller with more packets to write.
    pub open spec fn queued(self, packets: Seq<Seq<u8>>) -> OledView {
        OledView { outbox: self.outbox + packets, ..self }
    }

    /// The controller once the set-up has been started.
    pub open spec fn initializing(self, stage: Stage) -> OledView {
        OledView { stage, ..self.queued(command_packets(init_commands())) }
    }

    /// The controller once the transfer of its framebuffer has been started. A display
    /// that does not answer gets nothing.
    pub open spec fn flushed(self) -> OledView {
        if self.available {
            OledView {
                stage: Stage::Flush,
                ..self.queued(flush_packets(self.framebuffer, OLED_PAGES as nat))
            }
        } else {
            self
        }
    }

    /// The controller once the screen has been drawn and its transfer started.
    pub open spec fn redrawn(self) -> OledView {
        if self.available {
            OledView {
                dirty: false,
                ..(OledView { framebuffer: screen(self.status), ..self }).flushed()
            }
        } else {
            OledView { dirty: false, ..self }
        }
    }

    /// The controller after the periodic update.
    pub open spec fn updated(self) -> OledView {
        if self.dirty {
            self.redrawn()
        } else {
            self
        }
    }

    /// The controller once nothing is under way any more; the set-up at power-on goes
    /// over into the first screen.
    pub open spec fn finished(self) -> OledView {
        let done = OledView { outbox: Seq::empty(), stage: Stage::Idle, ..self };
        if self.stage == Stage::Boot {
            done.redrawn()
        } else {
            done
        }
    }

    /// The controller after the write of its next packet. A failure gives up the display
    /// and everything under way, a completed set-up makes the display available.
    pub open spec fn written(self, ok: bool) -> OledView {
        if !ok {
            OledView { available: false, ..self }.finished()
        } else if self.outbox.len() > 1 {
            OledView { outbox: self.outbox.drop_first(), ..self }
        } else if self.stage == Stage::Flush {
            self.finished()
        } else {
            OledView { available: true, ..self }.finished()
        }
    }

    /// The controller after a controller event.
    pub open spec fn notified(self, event: ControllerEvent) -> OledView {
        let s = self.status;
        match event {
            ControllerEvent::Battery(level) => self.told(Status { battery: Some(level), ..s }),
            ControllerEvent::ChargingState(charging) => self.told(Status { charging, ..s }),
            ControllerEvent::Layer(layer) => self.told(Status { layer, ..s }),
            ControllerEvent::ConnectionType(kind) => self.told(
                Status { connection_type: kind, ..s },
            ),
            ControllerEvent::BleProfile(profile) => self.told(Status { ble_profile: profile, ..s }),
            ControllerEvent::SplitPeripheral(_, connected) => self.told(
                Status { peripheral_connected: connected, ..s },
            ),
            ControllerEvent::Sleep(sleeping) => self.told(Status { sleeping, ..s }),
            ControllerEvent::Key(_) | ControllerEvent::Other => self,
        }
    }

    /// The controller with a new status to show.
    pub open spec fn told(self, status: Status) -> OledView {
        OledView { status, dirty: true, ..self }
    }
}

impl OledController {
    fn draw_char(&mut self, page: usize, col: usize, ch: u8)
        requires
            cell_start(page as int, col as int) + 5 <= usize::MAX,
        ensures
            final(self)@ == (OledView {
                framebuffer: with_char(old(self)@.framebuffer, page as int, col as int, ch),
                ..old(self)@
            }),
    {
        let glyph: [u8; 5] = glyph(ch);
        let start: usize = page * OLED_WIDTH + col * 6;
        if start + 5 >= OLED_BUF_SIZE {
            assert(self.framebuffer@ =~= with_char(
                old(self).framebuffer@,
                page as int,
                col as int,
                ch,
            ));
            return;
        }
        let mut k: usize = 0;
        while k < 5
            invariant
                k <= 5,
                start + 5 < OLED_BUF_SIZE,
                glyph@ == glyph_of(ch),
                glyph@.len() == 5,
                self.framebuffer@.len() == OLED_BUF_SIZE,
                forall|i: int|
                    0 <= i < OLED_BUF_SIZE ==> self.framebuffer@[i] == if start <= i < start + k {
                        glyph@[i - start]
                    } else {
                        old(self).framebuffer@[i]
                    },
                self.status == old(self).status,
                self.available == old(self).available,
                self.dirty == old(self).dirty,
                self.outbox == old(self).outbox,
                self.stage == old(self).stage,
            decreases 5 - k,
        {
            self.framebuffer[start + k] = glyph[k];
            k += 1;
        }
        self.framebuffer[start + 5] = 0;
        assert(self.framebuffer@ =~= with_char(
            old(self).framebuffer@,
            page as int,
            col as int,
            ch,
        ));
    }

    fn draw_text(&mut self, page: usize, col: usize, text: &str)
        requires
            cell_start(page as int, col + text.spec_bytes().len()) + 5 <= usize::MAX,
        ensures
            final(self)@ == (OledView {
                framebuffer: with_text(
                    old(self)@.framebuffer,
                    page as int,
                    col as int,
                    text.spec_bytes(),
                ),
                ..old(self)@
            }),
    {
        let bytes = text.as_bytes();
        let mut idx: usize = 0;
        assert(self.framebuffer@ =~= with_text(
            old(self).framebuffer@,
            page as int,
            col as int,
            bytes@.take(0),
        ));
        while idx < bytes.len()
            invariant
                idx <= bytes@.len(),
                cell_start(page as int, col + bytes@.len()) + 5 <= usize::MAX,
                self@ == (OledView {
                    framebuffer: with_text(
                        old(self)@.framebuffer,
                        page as int,
                        col as int,
                        bytes@.take(idx as int),
                    ),
                    ..old(self)@
                }),
            decreases bytes@.len() - idx,
        {
            self.draw_char(page, col + idx, bytes[idx]);
            proof {
                lemma_text_push(
                    old(self)@.framebuffer,
                    page as int,
                    col as int,
                    bytes@.take(idx as int),
                    bytes@[idx as int],
                );
                assert(bytes@.take(idx + 1) =~= bytes@.take(idx as int).push(bytes@[idx as int]));
            }
            idx += 1;
        }
        assert(bytes@.take(idx as int) =~= bytes@);
    }

    fn draw_u8(&mut self, page: usize, col: usize, value: u8)
        requires
            cell_start(page as int, col + 2) + 5 <= usize::MAX,
        ensures
            final(self)@ == (OledView {
                framebuffer: with_text(
                    old(self)@.framebuffer,
                    page as int,
                    col as int,
                    digits(value),
                ),
                ..old(self)@
            }),
    {
        let ghost fb = self@.framebuffer;
        let ghost none = Seq::<u8>::empty();
        assert(with_text(fb, page as int, col as int, none) =~= fb);
        if value >= 100 {
            self.draw_char(page, col, 0x31);
            self.draw_char(page, col + 1, 0x30);
            self.draw_char(page, col + 2, 0x30);
            proof {
                lemma_text_push(fb, page as int, col as int, none, 0x31);
                lemma_text_push(fb, page as int, col as int, none.push(0x31), 0x30);
                lemma_text_push(fb, page as int, col as int, none.push(0x31).push(0x30), 0x30);
                assert(none.push(0x31).push(0x30).push(0x30) =~= digits(value));
            }
        } else if value >= 10 {
            self.draw_char(page, col, 0x30 + value / 10);
            self.draw_char(page, col + 1, 0x30 + value % 10);
            proof {
                let tens = (0x30 + value / 10) as u8;
                let ones = (0x30 + value % 10) as u8;
                lemma_text_push(fb, page as int, col as int, none, tens);
                lemma_text_push(fb, page as int, col as int, none.push(tens), ones);
                assert(none.push(tens).push(ones) =~= digits(value));
            }
        } else {
            self.draw_char(page, col, 0x30 + value);
            proof {
                lemma_text_push(fb, page as int, col as int, none, (0x30 + value) as u8);
                assert(none.push((0x30 + value) as u8) =~= digits(value));
            }
        }
    }
}

/// Drawing a text is drawing its characters one after the other.
proof fn lemma_text_push(fb: Seq<u8>, page: int, col: int, text: Seq<u8>, ch: u8)
    requires
        page >= 0,
        col >= 0,
    ensures
        with_char(with_text(fb, page, col, text), page, col + text.len(), ch) == with_text(
            fb,
            page,
            col,
            text.push(ch),
        ),
{
    let start = cell_start(page, col);
    let n = text.len() as int;
    let lhs = with_char(with_text(fb, page, col, text), page, col + n, ch);
    let rhs = with_text(fb, page, col, text.push(ch));
    assert(cell_start(page, col + n) == start + 6 * n);
    assert forall|i: int| 0 <= i < fb.len() implies lhs[i] == rhs[i] by {
        let k = (i - start) / 6;
        if k == n {
            assert(text.push(ch)[k] == ch);
        } else if 0 <= k < n {
            assert(text.push(ch)[k] == text[k]);
        }
    }
    assert(lhs =~= rhs);
}

/// Writing into a line that is still short enough puts the text at its column, behind
/// spaces.
proof fn lemma_write(lines: Seq<Seq<u8>>, page: int, col: int, text: Seq<u8>)
    requires
        lines.len() == OLED_PAGES,
        0 <= page < OLED_PAGES,
        lines[page].len() <= col,
        (col + text.len()) * 6 <= OLED_WIDTH,
    ensures
        with_text(rendered(lines), page, col, text) == rendered(
            lines.update(page, padded(lines[page], col) + text),
        ),
{
    let start = cell_start(page, col);
    let line = padded(lines[page], col) + text;
    let lhs = with_text(rendered(lines), page, col, text);
    let rhs = rendered(lines.update(page, line));
    assert forall|i: int| 0 <= i < OLED_BUF_SIZE implies lhs[i] == rhs[i] by {
        let k = (i - start) / 6;
        let x = i % 128;
        if i / 128 == page {
            if i >= start && k < text.len() {
                assert(x / 6 == col + k);
                assert(x % 6 == (i - start) % 6);
                assert(line[x / 6] == text[k]);
            } else if x / 6 < lines[page].len() {
                assert(line[x / 6] == lines[page][x / 6]);
            } else if x / 6 < col {
                assert(line[x / 6] == 0x20);
            }
        } else {
            assert(lines.update(page, line)[i / 128] == lines[i / 128]);
            assert(i < start || k >= text.len());
        }
    }
    assert(lhs =~= rhs);
}

/// A bus packet: a control byte, then some of `bytes`.
fn packet(control: u8, bytes: &[u8], start: usize, end: usize) -> (out: Vec<u8>)
    requires
        start <= end <= bytes@.len(),
    ensures
        out@ == seq![control] + bytes@.subrange(start as int, end as int),
{
    let mut out: Vec<u8> = Vec::new();
    out.push(control);
    let mut i: usize = start;
    while i < end
        invariant
            start <= i <= end <= bytes@.len(),
            out@ == seq![control] + bytes@.subrange(start as int, i as int),
        decreases end - i,
    {
        out.push(bytes[i]);
        assert(bytes@.subrange(start as int, i + 1) =~= bytes@.subrange(
            start as int,
            i as int,
        ).push(bytes@[i as int]));
        i += 1;
    }
    out
}

impl OledController {
    /// The controller at power-on.
    pub fn new() -> (controller: Self)
        ensures
            controller@ == OledView::initial(),
            controller@.wf(),
    {
        let controller = OledController {
            status: Status {
                layer: 0,
                battery: None,
                charging: false,
                connection_type: 1,
                ble_profile: 0,
                peripheral_connected: false,
                sleeping: false,
            },
            available: true,
            dirty: true,
            framebuffer: [0; OLED_BUF_SIZE],
            outbox: Vec::new(),
            stage: Stage::Idle,
        };
        assert(controller@ =~= OledView::initial());
        controller
    }

    /// Starts to set the display up. The display counts as available once every packet
    /// has been written.
    pub fn init_display(&mut self)
        requires
            old(self)@.wf(),
            old(self)@.stage == Stage::Idle,
        ensures
            final(self)@ == old(self)@.initializing(Stage::Init),
            final(self)@.wf(),
    {
        let commands: [u8; 25] = [
            0xAE, 0xD5, 0x80, 0xA8, 0x1F, 0xD3, 0x00, 0x40, 0x8D, 0x14, 0x20, 0x00, 0xA1, 0xC8,
            0xDA, 0x02, 0x81, 0x8F, 0xD9, 0xF1, 0xDB, 0x40, 0xA4, 0xA6, 0xAF,
        ];
        assert(commands@ =~= init_commands());
        self.write_commands(&commands);
        self.stage = Stage::Init;
    }

    fn push_packet(&mut self, packet: Vec<u8>)
        ensures
            final(self)@ == old(self)@.queued(seq![packet@]),
    {
        self.outbox.push(packet);
        assert(self@ =~= old(self)@.queued(seq![packet@]));
    }

    /// Queues the packets that carry `commands`.
    fn write_commands(&mut self, commands: &[u8])
        ensures
            final(self)@ == old(self)@.queued(command_packets(commands@)),
    {
        let mut offset: usize = 0;
        let ghost mut done: Seq<Seq<u8>> = Seq::empty();
        assert(self@ =~= old(self)@.queued(done));
        assert(commands@.skip(0) =~= commands@);
        assert(command_packets(commands@) =~= done + command_packets(commands@.skip(0)));
        while offset < commands.len()
            invariant
                offset <= commands@.len(),
                self@ == old(self)@.queued(done),
                command_packets(commands@) == done + command_packets(
                    commands@.skip(offset as int),
                ),
            decreases commands@.len() - offset,
        {
            let left: usize = commands.len() - offset;
            let chunk_len: usize = if left < 31 {
                left
            } else {
                31
            };
            let chunk = packet(0x00, commands, offset, offset + chunk_len);
            proof {
                let rest = commands@.skip(offset as int);
                let n = chunk_len as int;
                assert(chunk@ =~= seq![0x00u8] + rest.take(n));
                if rest.len() <= 31 {
                    assert(rest.take(n) =~= rest);
                    assert(command_packets(rest.skip(n)) =~= Seq::<Seq<u8>>::empty());
                }
                assert(command_packets(rest) =~= seq![chunk@] + command_packets(rest.skip(n)));
                assert(rest.skip(n) =~= commands@.skip(offset + chunk_len));
                assert(done + command_packets(rest) =~= done + seq![chunk@] + command_packets(
                    rest.skip(n),
                ));
                assert(old(self)@.queued(done).queued(seq![chunk@]) =~= old(self)@.queued(
                    done + seq![chunk@],
                ));
                done = done + seq![chunk@];
            }
            self.push_packet(chunk);
            offset += chunk_len;
        }
        assert(commands@.skip(offset as int) =~= Seq::<u8>::empty());
        assert(done =~= command_packets(commands@));
    }

    /// Queues the packets that transfer the framebuffer; none to a display that does not
    /// answer.
    fn flush(&mut self)
        requires
            old(self)@.wf(),
            old(self)@.stage == Stage::Idle,
        ensures
            final(self)@ == old(self)@.flushed(),
            final(self)@.wf(),
    {
        if !self.available {
            return;
        }
        let ghost fb = self@.framebuffer;
        let ghost mut done: Seq<Seq<u8>> = Seq::empty();
        assert(self@ =~= old(self)@.queued(done));
        let mut page: usize = 0;
        while page < OLED_PAGES
            invariant
                page <= OLED_PAGES,
                fb == old(self)@.framebuffer,
                fb.len() == OLED_BUF_SIZE,
                done == flush_packets(fb, page as nat),
                self@ == old(self)@.queued(done),
                page > 0 ==> done.len() > 0,
            decreases OLED_PAGES - page,
        {
            let select: [u8; 3] = [0xB0 + page as u8, 0x00, 0x10];
            let ghost head = command_packets(select@);
            assert(select@ =~= seq![(0xB0 + page) as u8, 0x00, 0x10]);
            self.write_commands(&select);
            let base: usize = page * OLED_WIDTH;
            let ghost mut sent = head;
            assert(self@ =~= old(self)@.queued(done + sent));
            let mut chunk: usize = 0;
            assert(sent =~= head + Seq::new(0, |c: int| data_packet(fb, page as int, c)));
            while chunk < OLED_WIDTH / 16
                invariant
                    chunk <= 8,
                    page < OLED_PAGES,
                    base == page * OLED_WIDTH,
                    fb == old(self)@.framebuffer,
                    fb.len() == OLED_BUF_SIZE,
                    sent == head + Seq::new(
                        chunk as nat,
                        |c: int| data_packet(fb, page as int, c),
                    ),
                    self@ == old(self)@.queued(done + sent),
                decreases 8 - chunk,
            {
                let start: usize = base + chunk * 16;
                let bytes = packet(0x40, &self.framebuffer, start, start + 16);
                proof {
                    assert(bytes@ =~= data_packet(fb, page as int, chunk as int));
                    assert(old(self)@.queued(done + sent).queued(seq![bytes@]) =~= old(
                        self,
                    )@.queued(done + (sent + seq![bytes@])));
                    sent = sent + seq![bytes@];
                    assert(sent =~= head + Seq::new(
                        (chunk + 1) as nat,
                        |c: int| data_packet(fb, page as int, c),
                    ));
                }
                self.push_packet(bytes);
                chunk += 1;
            }
            proof {
                assert(sent =~= page_packets(fb, page as int));
                done = done + sent;
            }
            page += 1;
        }
        self.stage = Stage::Flush;
    }

    /// Draws a text behind what its line shows already.
    fn draw_text_in_line(
        &mut self,
        page: usize,
        col: usize,
        text: &str,
        Ghost(lines): Ghost<Seq<Seq<u8>>>,
    )
        requires
            lines.len() == OLED_PAGES,
            page < OLED_PAGES,
            lines[page as int].len() <= col,
            (col + text.spec_bytes().len()) * 6 <= OLED_WIDTH,
            old(self)@.framebuffer == rendered(lines),
        ensures
            final(self)@ == (OledView {
                framebuffer: rendered(
                    lines.update(
                        page as int,
                        padded(lines[page as int], col as int) + text.spec_bytes(),
                    ),
                ),
                ..old(self)@
            }),
    {
        self.draw_text(page, col, text);
        proof {
            lemma_write(lines, page as int, col as int, text.spec_bytes());
        }
    }

    /// Draws a number behind what its line shows already.
    fn draw_u8_in_line(
        &mut self,
        page: usize,
        col: usize,
        value: u8,
        Ghost(lines): Ghost<Seq<Seq<u8>>>,
    )
        requires
            lines.len() == OLED_PAGES,
            page < OLED_PAGES,
            lines[page as int].len() <= col,
            (col + 3) * 6 <= OLED_WIDTH,
            old(self)@.framebuffer == rendered(lines),
        ensures
            final(self)@ == (OledView {
                framebuffer: rendered(
                    lines.update(
                        page as int,
                        padded(lines[page as int], col as int) + digits(value),
                    ),
                ),
                ..old(self)@
            }),
    {
        self.draw_u8(page, col, value);
        proof {
            lemma_write(lines, page as int, col as int, digits(value));
        }
    }

    /// Draws the screen of a sleeping keyboard on a blank framebuffer.
    fn draw_sleep_screen(&mut self)
        requires
            old(self)@.framebuffer == rendered(blank_lines()),
            old(self)@.status.sleeping,
        ensures
            final(self)@ == (OledView { framebuffer: screen(old(self)@.status), ..old(self)@ }),
    {
        proof {
            lemma_literals();
        }
        let ghost none = Seq::<u8>::empty();
        let ghost l0 = blank_lines();
        let ghost l1 = l0.update(0, padded(none, 0) + "SLEEP".spec_bytes());
        let ghost l2 = l1.update(1, padded(none, 0) + "WAKE KEY".spec_bytes());
        let ghost l3 = l2.update(2, padded(none, 0) + "TO RESUME".spec_bytes());
        let ghost l4 = l3.update(3, padded(none, 0) + "LILY58".spec_bytes());
        self.draw_text_in_line(0, 0, "SLEEP", Ghost(l0));
        self.draw_text_in_line(1, 0, "WAKE KEY", Ghost(l1));
        self.draw_text_in_line(2, 0, "TO RESUME", Ghost(l2));
        self.draw_text_in_line(3, 0, "LILY58", Ghost(l3));
        assert(l4 =~~= screen_lines(self.status));
    }

    /// Draws the line about the connection.
    fn draw_connection(&mut self, Ghost(lines): Ghost<Seq<Seq<u8>>>)
        requires
            lines.len() == OLED_PAGES,
            lines[2] == Seq::<u8>::empty(),
            old(self)@.framebuffer == rendered(lines),
        ensures
            final(self)@ == (OledView {
                framebuffer: rendered(lines.update(2, connection_line(old(self)@.status))),
                ..old(self)@
            }),
    {
        proof {
            lemma_literals();
        }
        let ghost none = Seq::<u8>::empty();
        match self.status.connection_type {
            0 => {
                self.draw_text_in_line(2, 0, "USB", Ghost(lines));
                assert(padded(none, 0) + "USB".spec_bytes() =~= connection_line(self.status));
            },
            _ => {
                let ghost half = lines.update(2, padded(none, 0) + "BLE P".spec_bytes());
                self.draw_text_in_line(2, 0, "BLE P", Ghost(lines));
                let profile: u8 = self.status.ble_profile.saturating_add(1);
                self.draw_u8_in_line(2, 6, profile, Ghost(half));
                assert(padded(half[2], 6) + digits(profile) =~= connection_line(self.status));
                assert(half.update(2, connection_line(self.status)) =~= lines.update(
                    2,
                    connection_line(self.status),
                ));
            },
        }
    }

    /// Draws the line about the battery and the other half of the keyboard.
    fn draw_power(&mut self, Ghost(lines): Ghost<Seq<Seq<u8>>>)
        requires
            lines.len() == OLED_PAGES,
            lines[3] == Seq::<u8>::empty(),
            old(self)@.framebuffer == rendered(lines),
        ensures
            final(self)@ == (OledView {
                framebuffer: rendered(lines.update(3, power_line(old(self)@.status))),
                ..old(self)@
            }),
    {
        proof {
            lemma_literals();
        }
        let ghost none = Seq::<u8>::empty();
        let ghost bat = padded(none, 0) + "BAT ".spec_bytes();
        self.draw_text_in_line(3, 0, "BAT ", Ghost(lines));
        let ghost l1 = lines.update(3, bat);
        let ghost level = if self.status.charging {
            "CHG".spec_bytes()
        } else {
            match self.status.battery {
                Some(level) => digits(level),
                None => "--".spec_bytes(),
            }
        };
        if self.status.charging {
            self.draw_text_in_line(3, 4, "CHG", Ghost(l1));
        } else if let Some(level) = self.status.battery {
            self.draw_u8_in_line(3, 4, level, Ghost(l1));
        } else {
            self.draw_text_in_line(3, 4, "--", Ghost(l1));
        }
        let ghost l2 = l1.update(3, padded(bat, 4) + level);
        self.draw_text_in_line(3, 9, "R ", Ghost(l2));
        let ghost l3 = l2.update(3, padded(l2[3], 9) + "R ".spec_bytes());
        let peripheral = if self.status.peripheral_connected {
            "OK"
        } else {
            "--"
        };
        self.draw_text_in_line(3, 11, peripheral, Ghost(l3));
        proof {
            assert(padded(bat, 4) + level =~= "BAT ".spec_bytes() + level);
            assert(padded(l3[3], 11) + peripheral.spec_bytes() =~= power_line(self.status));
            assert(l3.update(3, power_line(self.status)) =~= lines.update(
                3,
                power_line(self.status),
            ));
        }
    }

    /// Draws the screen of a keyboard in use on a blank framebuffer.
    fn draw_status_screen(&mut self)
        requires
            old(self)@.framebuffer == rendered(blank_lines()),
            !old(self)@.status.sleeping,
        ensures
            final(self)@ == (OledView { framebuffer: screen(old(self)@.status), ..old(self)@ }),
    {
        proof {
            lemma_literals();
        }
        let ghost none = Seq::<u8>::empty();
        let ghost l0 = blank_lines();
        let ghost l1 = l0.update(0, padded(none, 0) + "LILY58 OLED".spec_bytes());
        let ghost l2 = l1.update(1, padded(none, 0) + "LAYER ".spec_bytes());
        self.draw_text_in_line(0, 0, "LILY58 OLED", Ghost(l0));
        self.draw_text_in_line(1, 0, "LAYER ", Ghost(l1));
        let layer: u8 = self.status.layer;
        self.draw_u8_in_line(1, 6, layer, Ghost(l2));
        let ghost l3 = l2.update(1, padded(l2[1], 6) + digits(layer));
        self.draw_connection(Ghost(l3));
        let ghost l4 = l3.update(2, connection_line(self.status));
        self.draw_power(Ghost(l4));
        assert(l4.update(3, power_line(self.status)) =~~= screen_lines(self.status));
    }

    /// Draws the screen for the current status and starts its transfer.
    pub fn redraw(&mut self)
        requires
            old(self)@.wf(),
            old(self)@.stage == Stage::Idle,
        ensures
            final(self)@ == old(self)@.redrawn(),
            final(self)@.wf(),
    {
        if !self.available {
            self.dirty = false;
            return;
        }
        self.framebuffer = [0; OLED_BUF_SIZE];
        assert(self.framebuffer@ =~= rendered(blank_lines()));
        if self.status.sleeping {
            self.draw_sleep_screen();
        } else {
            self.draw_status_screen();
        }
        self.flush();
        self.dirty = false;
    }

    /// Takes a controller event into account.
    pub fn process_event(&mut self, event: ControllerEvent)
        ensures
            final(self)@ == old(self)@.notified(event),
    {
        match event {
            ControllerEvent::Battery(level) => {
                self.status.battery = Some(level);
                self.dirty = true;
            },
            ControllerEvent::ChargingState(charging) => {
                self.status.charging = charging;
                self.dirty = true;
            },
            ControllerEvent::Layer(layer) => {
                self.status.layer = layer;
                self.dirty = true;
            },
            ControllerEvent::ConnectionType(kind) => {
                self.status.connection_type = kind;
                self.dirty = true;
            },
            ControllerEvent::BleProfile(profile) => {
                self.status.ble_profile = profile;
                self.dirty = true;
            },
            ControllerEvent::SplitPeripheral(_, connected) => {
                self.status.peripheral_connected = connected;
                self.dirty = true;
            },
            ControllerEvent::Sleep(sleeping) => {
                self.status.sleeping = sleeping;
                self.dirty = true;
            },
            ControllerEvent::Key(_) | ControllerEvent::Other => {},
        }
    }

    /// The periodic update: draws the screen if the status has changed.
    pub fn update(&mut self)
        requires
            old(self)@.wf(),
            old(self)@.stage == Stage::Idle,
        ensures
            final(self)@ == old(self)@.updated(),
            final(self)@.wf(),
    {
        if self.dirty {
            self.redraw();
        }
    }

    /// The packet to write next, if one is under way.
    pub fn next_write(&self) -> (next: Option<&Vec<u8>>)
        ensures
            match next {
                Some(packet) => self@.outbox.len() > 0 && packet@ == self@.outbox[0],
                None => self@.outbox.len() == 0,
            },
    {
        if self.outbox.len() > 0 {
            Some(&self.outbox[0])
        } else {
            None
        }
    }

    /// Takes the outcome of writing that packet into account.
    pub fn write_done(&mut self, ok: bool)
        requires
            old(self)@.wf(),
            old(self)@.outbox.len() > 0,
        ensures
            final(self)@ == old(self)@.written(ok),
            final(self)@.wf(),
    {
        let stage = self.stage;
        if ok && self.outbox.len() > 1 {
            self.outbox.remove(0);
            assert(self@ =~= old(self)@.written(ok));
            return;
        }
        if !ok {
            self.available = false;
        } else if stage != Stage::Flush {
            self.available = true;
        }
        self.outbox = Vec::new();
        self.stage = Stage::Idle;
        assert(self@.outbox =~= Seq::empty());
        if stage == Stage::Boot {
            self.redraw();
        }
    }
}

/// The controller of a keyboard that has just been switched on: the display is being
/// set up, and the first screen follows by itself.
pub fn oled() -> (controller: OledController)
    ensures
        controller@ == OledView::initial().initializing(Stage::Boot),
        controller@.wf(),
{
    let mut controller = OledController::new();
    controller.init_display();
    controller.stage = Stage::Boot;
    controller
}

/// How many bytes the texts of the screen have.
proof fn lemma_literals()
    ensures
        "SLEEP".spec_bytes().len() == 5,
        "WAKE KEY".spec_bytes().len() == 8,
        "TO RESUME".spec_bytes().len() == 9,
        "LILY58".spec_bytes().len() == 6,
        "LILY58 OLED".spec_bytes().len() == 11,
        "LAYER ".spec_bytes().len() == 6,
        "USB".spec_bytes().len() == 3,
        "BLE P".spec_bytes().len() == 5,
        "BAT ".spec_bytes().len() == 4,
        "CHG".spec_bytes().len() == 3,
        "--".spec_bytes().len() == 2,
        "R ".spec_bytes().len() == 2,
        "OK".spec_bytes().len() == 2,
{
    broadcast use vstd::string::is_ascii_spec_bytes;

    reveal_strlit("SLEEP");
    reveal_strlit("WAKE KEY");
    reveal_strlit("TO RESUME");
    reveal_strlit("LILY58");
    reveal_strlit("LILY58 OLED");
    reveal_strlit("LAYER ");
    reveal_strlit("USB");
    reveal_strlit("BLE P");
    reveal_strlit("BAT ");
    reveal_strlit("CHG");
    reveal_strlit("--");
    reveal_strlit("R ");
    reveal_strlit("OK");
    assert("SLEEP".is_ascii());
    assert("WAKE KEY".is_ascii());
    assert("TO RESUME".is_ascii());
    assert("LILY58".is_ascii());
    assert("LILY58 OLED".is_ascii());
    assert("LAYER ".is_ascii());
    assert("USB".is_ascii());
    assert("BLE P".is_ascii());
    assert("BAT ".is_ascii());
    assert("CHG".is_ascii());
    assert("--".is_ascii());
    assert("R ".is_ascii());
    assert("OK".is_ascii());
}

/// All bytes behind the control bytes of the packets that start with `control`, in order.
pub open spec fn payload(packets: Seq<Seq<u8>>, control: u8) -> Seq<u8>
    decreases packets.len(),
{
    if packets.len() == 0 {
        Seq::empty()
    } else {
        let before = payload(packets.drop_last(), control);
        let last = packets.last();
        if last.len() > 0 && last[0] == control {
            before + last.skip(1)
        } else {
            before
        }
    }
}

proof fn lemma_payload_concat(a: Seq<Seq<u8>>, b: Seq<Seq<u8>>, control: u8)
    ensures
        payload(a + b, control) == payload(a, control) + payload(b, control),
    decreases b.len(),
{
    if b.len() == 0 {
        assert(a + b =~= a);
        assert(payload(a, control) + payload(b, control) =~= payload(a, control));
    } else {
        lemma_payload_concat(a, b.drop_last(), control);
        assert((a + b).drop_last() =~= a + b.drop_last());
        assert(payload(a + b, control) =~= payload(a, control) + payload(b, control));
    }
}

proof fn lemma_payload_single(packet: Seq<u8>, control: u8)
    requires
        packet.len() > 0,
    ensures
        payload(seq![packet], control) == if packet[0] == control {
            packet.skip(1)
        } else {
            Seq::empty()
        },
{
    reveal_with_fuel(payload, 2);
    assert(seq![packet].drop_last() =~= Seq::<Seq<u8>>::empty());
    assert(Seq::<u8>::empty() + packet.skip(1) =~= packet.skip(1));
}

/// Every command arrives, in order and once, in packets of at most 32 bytes that are
/// marked as commands.
pub proof fn law_commands_arrive(commands: Seq<u8>)
    ensures
        payload(command_packets(commands), 0x00) == commands,
        forall|i: int|
            0 <= i < command_packets(commands).len() ==> {
                let packet = #[trigger] command_packets(commands)[i];
                2 <= packet.len() <= 32 && packet[0] == 0x00
            },
    decreases commands.len(),
{
    if commands.len() == 0 {
        assert(payload(command_packets(commands), 0x00) =~= commands);
    } else if commands.len() <= 31 {
        let packet = seq![0x00u8] + commands;
        lemma_payload_single(packet, 0x00);
        assert(packet.skip(1) =~= commands);
    } else {
        let packet = seq![0x00u8] + commands.take(31);
        let rest = command_packets(commands.skip(31));
        law_commands_arrive(commands.skip(31));
        lemma_payload_single(packet, 0x00);
        lemma_payload_concat(seq![packet], rest, 0x00);
        assert(packet.skip(1) =~= commands.take(31));
        assert(commands.take(31) + commands.skip(31) =~= commands);
        let all = command_packets(commands);
        assert forall|i: int| 0 <= i < all.len() implies {
            let packet = #[trigger] all[i];
            2 <= packet.len() <= 32 && packet[0] == 0x00
        } by {
            if i > 0 {
                assert(all[i] == rest[i - 1]);
            }
        }
    }
}

proof fn lemma_data_payload(fb: Seq<u8>, page: int, chunks: nat)
    requires
        fb.len() == OLED_BUF_SIZE,
        0 <= page < OLED_PAGES,
        chunks <= 8,
    ensures
        payload(Seq::new(chunks, |chunk: int| data_packet(fb, page, chunk)), 0x40) == fb.subrange(
            page * OLED_WIDTH,
            page * OLED_WIDTH + chunks * 16,
        ),
    decreases chunks,
{
    let packets = Seq::new(chunks, |chunk: int| data_packet(fb, page, chunk));
    if chunks == 0 {
        assert(payload(packets, 0x40) =~= fb.subrange(
            page * OLED_WIDTH,
            page * OLED_WIDTH + chunks * 16,
        ));
    } else {
        let n = (chunks - 1) as nat;
        lemma_data_payload(fb, page, n);
        assert(packets.drop_last() =~= Seq::new(n, |chunk: int| data_packet(fb, page, chunk)));
        let last = data_packet(fb, page, n as int);
        assert(last.skip(1) =~= fb.subrange(
            page * OLED_WIDTH + n * 16,
            page * OLED_WIDTH + n * 16 + 16,
        ));
        assert(payload(packets, 0x40) =~= fb.subrange(
            page * OLED_WIDTH,
            page * OLED_WIDTH + chunks * 16,
        ));
    }
}

proof fn lemma_flush_payload(fb: Seq<u8>, pages: nat)
    requires
        fb.len() == OLED_BUF_SIZE,
        pages <= OLED_PAGES,
    ensures
        payload(flush_packets(fb, pages), 0x40) == fb.take(pages * OLED_WIDTH as int),
        flush_packets(fb, pages).len() == pages * 9,
    decreases pages,
{
    if pages == 0 {
        assert(payload(flush_packets(fb, pages), 0x40) =~= fb.take(pages * OLED_WIDTH as int));
    } else {
        let n = (pages - 1) as nat;
        let select = seq![(0xB0 + n) as u8, 0x00, 0x10];
        let head = command_packets(select);
        let data = Seq::new(8, |chunk: int| data_packet(fb, n as int, chunk));
        lemma_flush_payload(fb, n);
        lemma_payload_concat(flush_packets(fb, n), page_packets(fb, n as int), 0x40);
        lemma_payload_concat(head, data, 0x40);
        lemma_payload_single(seq![0x00u8] + select, 0x40);
        lemma_data_payload(fb, n as int, 8);
        assert(payload(flush_packets(fb, pages), 0x40) =~= fb.take(pages * OLED_WIDTH as int));
    }
}

/// The transfer of a screen carries the whole framebuffer, in order and once, in 36
/// packets.
pub proof fn law_flush_carries_the_framebuffer(fb: Seq<u8>)
    requires
        fb.len() == OLED_BUF_SIZE,
    ensures
        payload(flush_packets(fb, OLED_PAGES as nat), 0x40) == fb,
        flush_packets(fb, OLED_PAGES as nat).len() == 36,
{
    lemma_flush_payload(fb, OLED_PAGES as nat);
    assert(fb.take(OLED_BUF_SIZE as int) =~= fb);
}

impl OledView {
    /// The controller after `n` successful writes.
    pub open spec fn written_times(self, n: nat) -> OledView
        decreases n,
    {
        if n == 0 {
            self
        } else {
            self.written_times((n - 1) as nat).written(true)
        }
    }
}

/// As long as all writes succeed the packets go out one after the other, and with the
/// last one whatever was under way is finished: a screen has been transferred, or the
/// display is available.
pub proof fn law_transfers_complete(v: OledView, n: nat)
    requires
        v.wf(),
        v.stage != Stage::Idle,
        n <= v.outbox.len(),
    ensures
        n < v.outbox.len() ==> v.written_times(n) == (OledView {
            outbox: v.outbox.skip(n as int),
            ..v
        }),
        n == v.outbox.len() ==> v.written_times(n) == (OledView {
            available: v.available || v.stage != Stage::Flush,
            ..v
        }).finished(),
    decreases n,
{
    if n == 0 {
        assert(v.outbox.skip(0) =~= v.outbox);
    } else {
        law_transfers_complete(v, (n - 1) as nat);
        let before = v.written_times((n - 1) as nat);
        assert(before.outbox == v.outbox.skip(n - 1));
        assert(v.outbox.skip(n - 1).drop_first() =~= v.outbox.skip(n as int));
        assert(v.written_times(n) == before.written(true));
    }
}

/// At power-on the display is set up with a single packet, and once that has been
/// written the first screen is on its way.
pub proof fn law_first_screen_follows_set_up()
    ensures
        ({
            let on = OledView::initial().initializing(Stage::Boot);
            let up = on.written(true);
            &&& on.outbox == seq![seq![0x00u8] + init_commands()]
            &&& up.available && !up.dirty
            &&& up.framebuffer == screen(OledView::initial().status)
            &&& up.outbox == flush_packets(up.framebuffer, OLED_PAGES as nat)
        }),
{
    let on = OledView::initial().initializing(Stage::Boot);
    let up = on.written(true);
    assert(on.outbox =~= seq![seq![0x00u8] + init_commands()]);
    assert(up.outbox =~= flush_packets(up.framebuffer, OLED_PAGES as nat));
}

/// A call of the controller that does not set the display up.
pub enum Call {
    Event(ControllerEvent),
    Update,
    Redraw,
    Flush,
}

impl OledView {
    /// The controller after a call.
    pub open spec fn called(self, call: Call) -> OledView {
        match call {
            Call::Event(event) => self.notified(event),
            Call::Update => self.updated(),
            Call::Redraw => self.redrawn(),
            Call::Flush => self.flushed(),
        }
    }

    /// The controller after a series of calls.
    pub open spec fn called_all(self, calls: Seq<Call>) -> OledView
        decreases calls.len(),
    {
        if calls.len() == 0 {
            self
        } else {
            self.called_all(calls.drop_last()).called(calls.last())
        }
    }
}

proof fn lemma_stays_unavailable(v: OledView, calls: Seq<Call>)
    requires
        !v.available,
        v.outbox.len() == 0,
    ensures
        !v.called_all(calls).available,
        v.called_all(calls).outbox.len() == 0,
    decreases calls.len(),
{
    if calls.len() > 0 {
        lemma_stays_unavailable(v, calls.drop_last());
    }
}

/// A display that fails once gets nothing more until it is set up again: the rest of the
/// transfer is dropped, and no series of events, updates, redraws and flushes makes it
/// available or has a packet for it.
pub proof fn law_failed_display_is_left_alone(v: OledView, calls: Seq<Call>)
    ensures
        !v.written(false).called_all(calls).available,
        v.written(false).called_all(calls).outbox.len() == 0,
        !v.available && v.outbox.len() == 0 ==> {
            &&& !v.called_all(calls).available
            &&& v.called_all(calls).outbox.len() == 0
        },
{
    lemma_stays_unavailable(v.written(false), calls);
    if !v.available && v.outbox.len() == 0 {
        lemma_stays_unavailable(v, calls);
    }
}

/// A number in decimal digits, without leading zeros.
pub open spec fn decimal(n: nat) -> Seq<u8>
    decreases n,
{
    if n < 10 {
        seq![(0x30 + n) as u8]
    } else {
        decimal(n / 10).push((0x30 + n % 10) as u8)
    }
}

/// Drawing a number is drawing the text of its decimal digits, or "100" from there on. It
/// takes one cell, two from 10 on and three from 100 on, and changes nothing beside them.
pub proof fn law_numbers_are_drawn_as_text(
    fb: Seq<u8>,
    page: int,
    col: int,
    value: u8,
    text: &str,
)
    requires
        text.spec_bytes() == if value >= 100 {
            "100".spec_bytes()
        } else {
            decimal(value as nat)
        },
    ensures
        with_text(fb, page, col, digits(value)) == with_text(
            fb,
            page,
            col,
            text.spec_bytes(),
        ),
        digits(value).len() == if value >= 100 {
            3int
        } else if value >= 10 {
            2
        } else {
            1
        },
        with_text(fb, page, col, digits(value)).len() == fb.len(),
        forall|i: int|
            0 <= i < fb.len() && !(cell_start(page, col) <= i < cell_start(
                page,
                col + digits(value).len(),
            )) ==> with_text(fb, page, col, digits(value))[i] == fb[i],
{
    broadcast use vstd::string::is_ascii_spec_bytes;

    reveal_strlit("100");
    assert("100".is_ascii());
    reveal_with_fuel(decimal, 2);
    assert(digits(value) =~= text.spec_bytes());
}

/// After an update the screen shows the status: whatever events came in before, the
/// framebuffer that is transferred is the picture of their outcome, and a second update
/// has nothing to do.
pub proof fn law_update_shows_the_status(v: OledView, event: ControllerEvent)
    requires
        v.wf(),
        v.stage == Stage::Idle,
        v.available,
    ensures
        v.notified(event).status != v.status ==> v.notified(event).dirty,
        v.dirty ==> v.updated().framebuffer == screen(v.status) && v.updated().outbox
            == flush_packets(screen(v.status), OLED_PAGES as nat),
        !v.updated().dirty,
        v.updated().updated() == v.updated(),
{
    assert(v.outbox + flush_packets(screen(v.status), OLED_PAGES as nat) =~= flush_packets(
        screen(v.status),
        OLED_PAGES as nat,
    ));
}

/// An event sets the field of the status that it is about to the value that it carries,
/// whatever that was before, and leaves all others. It asks for a new screen exactly if it is
/// about a field. The display itself is not touched.
pub proof fn law_event_sets_its_field(v: OledView, event: ControllerEvent)
    ensures
        ({
            let s = v.status;
            let n = v.notified(event).status;
            &&& event matches ControllerEvent::Layer(x) ==> n.layer == x
            &&& !(event is Layer) ==> n.layer == s.layer
            &&& event matches ControllerEvent::Battery(x) ==> n.battery == Some(x)
            &&& !(event is Battery) ==> n.battery == s.battery
            &&& event matches ControllerEvent::ChargingState(x) ==> n.charging == x
            &&& !(event is ChargingState) ==> n.charging == s.charging
            &&& event matches ControllerEvent::ConnectionType(x) ==> n.connection_type == x
            &&& !(event is ConnectionType) ==> n.connection_type == s.connection_type
            &&& event matches ControllerEvent::BleProfile(x) ==> n.ble_profile == x
            &&& !(event is BleProfile) ==> n.ble_profile == s.ble_profile
            &&& event matches ControllerEvent::SplitPeripheral(_, x) ==> n.peripheral_connected == x
            &&& !(event is SplitPeripheral) ==> n.peripheral_connected == s.peripheral_connected
            &&& event matches ControllerEvent::Sleep(x) ==> n.sleeping == x
            &&& !(event is Sleep) ==> n.sleeping == s.sleeping
            &&& v.notified(event).dirty <==> v.dirty || !(event is Key || event is Other)
            &&& v.notified(event).available == v.available
            &&& v.notified(event).framebuffer == v.framebuffer
            &&& v.notified(event).outbox == v.outbox
            &&& v.notified(event).stage == v.stage
        }),
{
}

/// Does a status say what an event has told?
pub open spec fn says(s: Status, event: ControllerEvent) -> bool {
    match event {
        ControllerEvent::Layer(x) => s.layer == x,
        ControllerEvent::Battery(x) => s.battery == Some(x),
        ControllerEvent::ChargingState(x) => s.charging == x,
        ControllerEvent::ConnectionType(x) => s.connection_type == x,
        ControllerEvent::BleProfile(x) => s.ble_profile == x,
        ControllerEvent::SplitPeripheral(_, x) => s.peripheral_connected == x,
        ControllerEvent::Sleep(x) => s.sleeping == x,
        ControllerEvent::Key(_) | ControllerEvent::Other => true,
    }
}

/// Are two events about the same field of the status?
pub open spec fn same_kind(event: ControllerEvent, other: ControllerEvent) -> bool {
    match event {
        ControllerEvent::Layer(..) => other is Layer,
        ControllerEvent::Battery(..) => other is Battery,
        ControllerEvent::ChargingState(..) => other is ChargingState,
        ControllerEvent::ConnectionType(..) => other is ConnectionType,
        ControllerEvent::BleProfile(..) => other is BleProfile,
        ControllerEvent::SplitPeripheral(..) => other is SplitPeripheral,
        ControllerEvent::Sleep(..) => other is Sleep,
        ControllerEvent::Key(_) | ControllerEvent::Other => false,
    }
}

/// After any series of events, updates, redraws and flushes the status says what the last
/// event of each kind has told.
pub proof fn law_last_event_counts(v: OledView, calls: Seq<Call>, i: int, event: ControllerEvent)
    requires
        0 <= i < calls.len(),
        calls[i] == Call::Event(event),
        forall|j: int|
            i < j < calls.len() ==> !((#[trigger] calls[j]) matches Call::Event(e) && same_kind(
                event,
                e,
            )),
    ensures
        says(v.called_all(calls).status, event),
    decreases calls.len(),
{
    let front = calls.drop_last();
    if i < front.len() {
        assert(front[i] == calls[i]);
        assert forall|j: int| i < j < front.len() implies !((#[trigger] front[j]) matches Call::Event(
            e,
        ) && same_kind(event, e)) by {
            assert(front[j] == calls[j]);
        }
        law_last_event_counts(v, front, i, event);
        let last = calls[calls.len() - 1];
        assert(!(last matches Call::Event(e) && same_kind(event, e)));
    }
}

/// A field of the status that no event is about stays as it is.
pub proof fn law_untold_fields_stay(v: OledView, calls: Seq<Call>)
    ensures
        (forall|i: int|
            0 <= i < calls.len() ==> !((#[trigger] calls[i]) matches Call::Event(e) && e is Layer))
            ==> v.called_all(calls).status.layer == v.status.layer,
        (forall|i: int|
            0 <= i < calls.len() ==> !((#[trigger] calls[i]) matches Call::Event(e) && e is Battery))
            ==> v.called_all(calls).status.battery == v.status.battery,
        (forall|i: int|
            0 <= i < calls.len() ==> !((#[trigger] calls[i]) matches Call::Event(e) && e is ChargingState))
            ==> v.called_all(calls).status.charging == v.status.charging,
        (forall|i: int|
            0 <= i < calls.len() ==> !((#[trigger] calls[i]) matches Call::Event(e) && e is ConnectionType))
            ==> v.called_all(calls).status.connection_type == v.status.connection_type,
        (forall|i: int|
            0 <= i < calls.len() ==> !((#[trigger] calls[i]) matches Call::Event(e) && e is BleProfile))
            ==> v.called_all(calls).status.ble_profile == v.status.ble_profile,
        (forall|i: int|
            0 <= i < calls.len() ==> !((#[trigger] calls[i]) matches Call::Event(e) && e is SplitPeripheral))
            ==> v.called_all(calls).status.peripheral_connected == v.status.peripheral_connected,
        (forall|i: int|
            0 <= i < calls.len() ==> !((#[trigger] calls[i]) matches Call::Event(e) && e is Sleep))
            ==> v.called_all(calls).status.sleeping == v.status.sleeping,
    decreases calls.len(),
{
    if calls.len() > 0 {
        let front = calls.drop_last();
        law_untold_fields_stay(v, front);
        assert(calls[calls.len() - 1] == calls.last());
        assert(forall|i: int| 0 <= i < front.len() ==> #[trigger] front[i] == calls[i]);
    }
}

/// The byte of a framebuffer for column `x` of a page.
pub open spec fn byte_at(fb: Seq<u8>, page: int, x: int) -> u8 {
    fb[128 * page + x]
}

/// Does a page show a text from cell `col` on? A cell is the five columns of a glyph and an
/// empty one.
pub open spec fn text_at(fb: Seq<u8>, page: int, col: int, text: Seq<u8>) -> bool {
    forall|x: int|
        6 * col <= x < 6 * (col + text.len()) ==> #[trigger] byte_at(fb, page, x) == if x % 6 == 5 {
            0
        } else {
            glyph_of(text[x / 6 - col])[x % 6]
        }
}

/// Is a page empty between two columns?
pub open spec fn empty_at(fb: Seq<u8>, page: int, from: nat, to: nat) -> bool {
    forall|x: int| from <= x < to ==> #[trigger] byte_at(fb, page, x) == 0
}

/// The text for a number: its decimal digits, but not beyond 100.
pub open spec fn number(value: int) -> Seq<u8> {
    if value >= 100 {
        decimal(100)
    } else {
        decimal(value as nat)
    }
}

proof fn lemma_text_at(lines: Seq<Seq<u8>>, page: int, col: int, text: Seq<u8>)
    requires
        0 <= page < 4,
        0 <= col,
        6 * (col + text.len()) <= 128,
        col + text.len() <= lines[page].len(),
        lines[page].subrange(col, (col + text.len()) as int) == text,
    ensures
        text_at(rendered(lines), page, col, text),
{
    let fb = rendered(lines);
    assert forall|x: int| 6 * col <= x < 6 * (col + text.len()) implies #[trigger] byte_at(
        fb,
        page,
        x,
    ) == if x % 6 == 5 {
        0
    } else {
        glyph_of(text[x / 6 - col])[x % 6]
    } by {
        let i = 128 * page + x;
        assert(i / 128 == page && i % 128 == x);
        let k = x / 6;
        assert(col <= k < col + text.len());
        assert(lines[page][k] == text[k - col]);
        assert(glyph_of(text[k - col]).len() == 5) by {
            law_glyphs_are_their_pictures(text[k - col], 0);
        }
    }
}

proof fn lemma_empty_at(lines: Seq<Seq<u8>>, page: int, from: nat, to: nat)
    requires
        0 <= page < 4,
        from <= to <= 128,
        forall|k: int|
            from as int / 6 <= k < lines[page].len() && 6 * k < to ==> #[trigger] lines[page][k] == 0x20,
    ensures
        empty_at(rendered(lines), page, from, to),
{
    let fb = rendered(lines);
    assert forall|x: int| from <= x < to implies #[trigger] byte_at(fb, page, x) == 0 by {
        let i = 128 * page + x;
        assert(i / 128 == page && i % 128 == x);
        let k = x / 6;
        if k < lines[page].len() {
            assert(lines[page][k] == 0x20);
        }
    }
}

proof fn lemma_number(value: u8)
    ensures
        digits(value) == number(value as int),
        1 <= digits(value).len() <= 3,
{
    reveal_with_fuel(decimal, 3);
    assert(digits(value) =~= number(value as int));
}

/// While the keyboard sleeps the screen shows how to wake it, and nothing else.
pub proof fn law_sleep_screen(s: Status)
    requires
        s.sleeping,
    ensures
        ({
            let fb = screen(s);
            &&& fb.len() == 512
            &&& text_at(fb, 0, 0, "SLEEP".spec_bytes()) && empty_at(fb, 0, 6 * 5, 128)
            &&& text_at(fb, 1, 0, "WAKE KEY".spec_bytes()) && empty_at(fb, 1, 6 * 8, 128)
            &&& text_at(fb, 2, 0, "TO RESUME".spec_bytes()) && empty_at(fb, 2, 6 * 9, 128)
            &&& text_at(fb, 3, 0, "LILY58".spec_bytes()) && empty_at(fb, 3, 6 * 6, 128)
        }),
{
    lemma_literals();
    let lines = screen_lines(s);
    lemma_line(lines, 0, "SLEEP".spec_bytes());
    lemma_line(lines, 1, "WAKE KEY".spec_bytes());
    lemma_line(lines, 2, "TO RESUME".spec_bytes());
    lemma_line(lines, 3, "LILY58".spec_bytes());
}

proof fn lemma_line(lines: Seq<Seq<u8>>, page: int, text: Seq<u8>)
    requires
        0 <= page < 4,
        lines[page] == text,
        text.len() <= 21,
    ensures
        text_at(rendered(lines), page, 0, text),
        empty_at(rendered(lines), page, 6 * text.len(), 128),
{
    assert(text.subrange(0, text.len() as int) =~= text);
    lemma_text_at(lines, page, 0, text);
    lemma_empty_at(lines, page, 6 * text.len(), 128);
}

/// Awake, the screen shows its title and the number of the layer.
pub proof fn law_screen_shows_the_layer(s: Status)
    requires
        !s.sleeping,
    ensures
        ({
            let fb = screen(s);
            let layer = number(s.layer as int);
            &&& fb.len() == 512
            &&& text_at(fb, 0, 0, "LILY58 OLED".spec_bytes()) && empty_at(fb, 0, 6 * 11, 128)
            &&& text_at(fb, 1, 0, "LAYER ".spec_bytes())
            &&& text_at(fb, 1, 6, layer)
            &&& empty_at(fb, 1, 6 * (6 + layer.len()), 128)
        }),
{
    lemma_literals();
    lemma_number(s.layer);
    let lines = screen_lines(s);
    let text = "LAYER ".spec_bytes();
    let layer = digits(s.layer);
    lemma_line(lines, 0, "LILY58 OLED".spec_bytes());
    lemma_line(lines, 1, text + layer);
    assert((text + layer).subrange(0, 6) =~= text);
    assert((text + layer).subrange(6, (6 + layer.len()) as int) =~= layer);
    lemma_text_at(lines, 1, 0, text);
    lemma_text_at(lines, 1, 6, layer);
}

/// Awake, the screen shows USB as the connection if its type is 0, and for every other type
/// the Bluetooth profile, counted from 1.
pub proof fn law_screen_shows_the_connection(s: Status)
    requires
        !s.sleeping,
    ensures
        ({
            let fb = screen(s);
            let profile = number(s.ble_profile + 1);
            if s.connection_type == 0 {
                &&& text_at(fb, 2, 0, "USB".spec_bytes())
                &&& empty_at(fb, 2, 6 * 3, 128)
            } else {
                &&& text_at(fb, 2, 0, "BLE P".spec_bytes())
                &&& empty_at(fb, 2, 6 * 5, 6 * 6)
                &&& text_at(fb, 2, 6, profile)
                &&& empty_at(fb, 2, 6 * (6 + profile.len()), 128)
            }
        }),
{
    lemma_literals();
    let lines = screen_lines(s);
    if s.connection_type == 0 {
        lemma_line(lines, 2, "USB".spec_bytes());
    } else {
        let shown = if s.ble_profile < 255 {
            (s.ble_profile + 1) as u8
        } else {
            255u8
        };
        lemma_number(shown);
        assert(digits(shown) == number(s.ble_profile + 1));
        let text = "BLE P".spec_bytes();
        let line = padded(text, 6) + digits(shown);
        assert(lines[2] == line);
        lemma_line(lines, 2, line);
        assert(line.subrange(0, 5) =~= text);
        assert(line.subrange(6, (6 + digits(shown).len()) as int) =~= digits(shown));
        lemma_text_at(lines, 2, 0, text);
        lemma_text_at(lines, 2, 6, digits(shown));
        lemma_empty_at(lines, 2, 30, 36);
    }
}

/// Awake, the screen shows that the battery is charging, or else its level if that is known,
/// and whether the other half is connected.
pub proof fn law_screen_shows_the_power(s: Status)
    requires
        !s.sleeping,
    ensures
        ({
            let fb = screen(s);
            let level = if s.charging {
                "CHG".spec_bytes()
            } else {
                match s.battery {
                    Some(level) => number(level as int),
                    None => "--".spec_bytes(),
                }
            };
            let half = if s.peripheral_connected {
                "OK".spec_bytes()
            } else {
                "--".spec_bytes()
            };
            &&& text_at(fb, 3, 0, "BAT ".spec_bytes())
            &&& text_at(fb, 3, 4, level)
            &&& empty_at(fb, 3, 6 * (4 + level.len()), 6 * 9)
            &&& text_at(fb, 3, 9, "R ".spec_bytes())
            &&& text_at(fb, 3, 11, half)
            &&& empty_at(fb, 3, 6 * 13, 128)
        }),
{
    lemma_literals();
    if let Some(level) = s.battery {
        lemma_number(level);
    }
    let lines = screen_lines(s);
    let bat = "BAT ".spec_bytes();
    let r = "R ".spec_bytes();
    let level = if s.charging {
        "CHG".spec_bytes()
    } else {
        match s.battery {
            Some(level) => digits(level),
            None => "--".spec_bytes(),
        }
    };
    let half = if s.peripheral_connected {
        "OK".spec_bytes()
    } else {
        "--".spec_bytes()
    };
    let line = padded(bat + level, 9) + r + half;
    assert(lines[3] == line);
    assert(line.len() == 13);
    lemma_line(lines, 3, line);
    let n = 4 + level.len();
    assert(line.subrange(0, 4) =~= bat);
    assert(line.subrange(4, n as int) =~= level);
    assert(line.subrange(9, 11) =~= r);
    assert(line.subrange(11, 13) =~= half);
    lemma_text_at(lines, 3, 0, bat);
    lemma_text_at(lines, 3, 4, level);
    lemma_text_at(lines, 3, 9, r);
    lemma_text_at(lines, 3, 11, half);
    lemma_empty_at(lines, 3, 6 * n, 54);
}

/// A drawn character fills its cell with the columns of its glyph and an empty one, and
/// changes nothing beside it. A cell that does not fit is left out whole.
pub proof fn law_characters_fill_their_cells(fb: Seq<u8>, page: int, col: int, ch: u8, i: int)
    requires
        0 <= i < fb.len(),
    ensures
        ({
            let start = 128 * page + 6 * col;
            let drawn = with_char(fb, page, col, ch);
            &&& drawn.len() == fb.len()
            &&& start + 6 <= fb.len() && start <= i < start + 5 ==> drawn[i] == glyph_of(ch)[i
                - start]
            &&& start + 6 <= fb.len() && i == start + 5 ==> drawn[i] == 0
            &&& start + 6 > fb.len() || i < start || i > start + 5 ==> drawn[i] == fb[i]
        }),
{
    law_glyphs_are_their_pictures(ch, 0);
}

/// Drawing a text is drawing its characters one by one, each in the cell after the last.
pub proof fn law_text_is_drawn_by_characters(
    fb: Seq<u8>,
    page: int,
    col: int,
    text: Seq<u8>,
    ch: u8,
)
    requires
        page >= 0,
        col >= 0,
    ensures
        with_text(fb, page, col, Seq::empty()) == fb,
        with_text(fb, page, col, text.push(ch)) == with_char(
            with_text(fb, page, col, text),
            page,
            (col + text.len()) as int,
            ch,
        ),
{
    assert(with_text(fb, page, col, Seq::empty()) =~= fb);
    lemma_text_push(fb, page, col, text, ch);
}

/// A transfer is 36 packets: for each of the four pages its address, then its 128 bytes in
/// eight packets of 16, in order.
pub proof fn law_transfer_goes_page_by_page(fb: Seq<u8>, page: int, chunk: int)
    requires
        fb.len() == 512,
        0 <= page < 4,
        0 <= chunk < 8,
    ensures
        ({
            let packets = flush_packets(fb, OLED_PAGES as nat);
            &&& packets.len() == 36
            &&& packets[9 * page] == seq![0x00u8, (0xB0 + page) as u8, 0x00, 0x10]
            &&& packets[9 * page + 1 + chunk].len() == 17
            &&& packets[9 * page + 1 + chunk][0] == 0x40
            &&& forall|k: int|
                0 <= k < 16 ==> #[trigger] packets[9 * page + 1 + chunk][1 + k] == fb[128 * page
                    + 16 * chunk + k]
        }),
{
    lemma_page_packets(fb, 4, page, chunk);
}

proof fn lemma_page_packets(fb: Seq<u8>, pages: nat, page: int, chunk: int)
    requires
        fb.len() == 512,
        pages <= 4,
        0 <= page < 4,
        0 <= chunk < 8,
    ensures
        flush_packets(fb, pages).len() == 9 * pages,
        page < pages ==> flush_packets(fb, pages)[9 * page] == seq![
            0x00u8,
            (0xB0 + page) as u8,
            0x00,
            0x10,
        ],
        page < pages ==> flush_packets(fb, pages)[9 * page + 1 + chunk] == data_packet(
            fb,
            page,
            chunk,
        ),
    decreases pages,
{
    if pages > 0 {
        let n = (pages - 1) as nat;
        lemma_page_packets(fb, n, page, chunk);
        let select = seq![(0xB0 + n) as u8, 0x00u8, 0x10];
        assert(command_packets(select) =~= seq![seq![0x00u8] + select]);
        assert(seq![0x00u8] + select =~= seq![0x00u8, (0xB0 + n) as u8, 0x00, 0x10]);
    }
}

/// A redraw of a display that answers puts the picture of the status into the framebuffer and
/// has all of it transferred; one of a display that does not answer leaves it alone. Either
/// way no other redraw is needed, and the status stays. An update redraws exactly if the
/// status has changed.
pub proof fn law_redraw(v: OledView)
    requires
        v.wf(),
        v.stage == Stage::Idle,
    ensures
        ({
            let n = v.redrawn();
            &&& !n.dirty && n.status == v.status && n.available == v.available
            &&& v.available ==> n.framebuffer == screen(v.status) && n.outbox == flush_packets(
                screen(v.status),
                OLED_PAGES as nat,
            ) && n.stage == Stage::Flush
            &&& !v.available ==> n.framebuffer == v.framebuffer && n.outbox.len() == 0 && n.stage
                == Stage::Idle
        }),
        v.dirty ==> v.updated() == v.redrawn(),
        !v.dirty ==> v.updated() == v,
{
    assert(v.outbox + flush_packets(screen(v.status), OLED_PAGES as nat) =~= flush_packets(
        screen(v.status),
        OLED_PAGES as nat,
    ));
}

/// Setting the display up is one packet more to write; nothing else changes before it has
/// been written.
pub proof fn law_set_up(v: OledView, stage: Stage)
    ensures
        ({
            let n = v.initializing(stage);
            &&& n.outbox == v.outbox.push(seq![0x00u8] + init_commands())
            &&& n.stage == stage && n.status == v.status && n.available == v.available
            &&& n.dirty == v.dirty && n.framebuffer == v.framebuffer
        }),
{
    assert(v.initializing(stage).outbox =~= v.outbox.push(seq![0x00u8] + init_commands()));
}

/// A packet that has been written is done, and nothing else changes before the last one. The
/// last one of a transfer ends it. The last one of a set-up makes the display available, and
/// at power-on the first screen follows. A write that fails makes the display unavailable and
/// drops all packets.
pub proof fn law_write_outcomes(v: OledView, ok: bool)
    requires
        v.wf(),
        v.outbox.len() > 0,
    ensures
        ({
            let n = v.written(ok);
            &&& n.status == v.status
            &&& ok && v.outbox.len() > 1 ==> {
                &&& n.outbox == v.outbox.skip(1)
                &&& n.stage == v.stage && n.available == v.available
                &&& n.dirty == v.dirty && n.framebuffer == v.framebuffer
            }
            &&& ok && v.outbox.len() == 1 && v.stage != Stage::Boot ==> {
                &&& n.outbox.len() == 0 && n.stage == Stage::Idle
                &&& n.available == (v.available || v.stage == Stage::Init)
                &&& n.dirty == v.dirty && n.framebuffer == v.framebuffer
            }
            &&& ok && v.outbox.len() == 1 && v.stage == Stage::Boot ==> {
                &&& n.available && !n.dirty
                &&& n.framebuffer == screen(v.status)
                &&& n.stage == Stage::Flush
                &&& n.outbox == flush_packets(screen(v.status), OLED_PAGES as nat)
            }
            &&& !ok ==> {
                &&& !n.available && n.outbox.len() == 0 && n.stage == Stage::Idle
                &&& n.framebuffer == v.framebuffer
                &&& n.dirty == (v.dirty && v.stage != Stage::Boot)
            }
        }),
{
    assert(v.outbox.drop_first() =~= v.outbox.skip(1));
    assert(Seq::<Seq<u8>>::empty() + flush_packets(screen(v.status), OLED_PAGES as nat)
        =~= flush_packets(screen(v.status), OLED_PAGES as nat));
}

} // verus!
