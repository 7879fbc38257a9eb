//! A connection to a radio: how it is set up, what can be changed while it
//! runs, and how it ends. The threads, sockets and sample queues around it
//! belong to the caller, which keeps a [`RadioSession`] under a lock.
use crate::boards::{self, is_hermes_lite, ps_feedback_config, Boards, PsFeedback};
use crate::bytes;
use crate::cw_keyer::CwKeyerValues;
use crate::iq_stream::{self, P1Demux, PsSlots};
use crate::p1_sender::{self, wire_receiver_count, P1Link, P1Live};
use crate::p1_start::{self, metis_command, METIS_STOP};
use crate::p2_sender::{P2Link, P2Live};
use crate::protocol1::DATA_PORT;
use crate::protocol2::{P2_HIGH_PRIORITY_PORT, P2_PACKET_SIZE};
use crate::queue::{self, iq_buffer_capacity_for_rate};
use vstd::prelude::*;

verus! {

pub const TX_AUDIO_SOURCE_AUTO: u8 = 0;

pub const TX_AUDIO_SOURCE_RADIO_MIC: u8 = 1;

pub const TX_AUDIO_SOURCE_LOCAL_MIC: u8 = 2;

/// Capacities of the queues that feed the transmitter and the radio's own
/// speaker.
pub const TX_IQ_BUFFER_CAPACITY: usize = 100_000;

pub const TCI_TX_AUDIO_CAPACITY: usize = 24_000;

pub const RX_AUDIO_TO_RADIO_CAPACITY: usize = 14_400;

/// Bit pattern of the amplifier gain assumed before any calibration, 38.8 dB
/// as a single-precision number.
pub const DEFAULT_PA_GAIN_DB_BITS: u32 = 0x421B_3333;

/// What discovery found out about a radio.
#[derive(Clone, Copy, Debug, PartialEq, Eq, Structural)]
pub struct Device {
    pub board: Boards,
    pub protocol: u8,
    pub adcs: u8,
}

/// What the user wants of a connection. Gain and phase of the diversity
/// combiner are single-precision bit patterns.
#[derive(Debug)]
pub struct RadioSettings {
    pub frequency_hz: u32,
    pub sample_rate: u32,
    pub receivers: u8,
    pub puresignal_enabled: bool,
    pub rx_attenuation: u32,
    pub ps_tx_attenuation: u32,
    pub diversity_enabled: bool,
    pub diversity_gain_db_bits: u32,
    pub diversity_phase_deg_bits: u32,
    pub rit_enabled: bool,
    pub rit_offset_hz: i32,
    pub xit_enabled: bool,
    pub xit_offset_hz: i32,
    pub ozy_firmware_path: Option<String>,
    pub ozy_fpga_path: Option<String>,
}

impl Default for RadioSettings {
    fn default() -> (s: Self)
        ensures
            s.frequency_hz == 7_100_000,
            s.sample_rate == 48_000,
            s.receivers == 1,
            !s.puresignal_enabled,
            s.rx_attenuation == 12,
            s.ps_tx_attenuation == 20,
            !s.diversity_enabled,
            s.diversity_gain_db_bits == 0,
            s.diversity_phase_deg_bits == 0,
            !s.rit_enabled,
            s.rit_offset_hz == 0,
            !s.xit_enabled,
            s.xit_offset_hz == 0,
            s.ozy_firmware_path is None,
            s.ozy_fpga_path is None,
    {
        RadioSettings {
            frequency_hz: 7_100_000,
            sample_rate: 48_000,
            receivers: 1,
            puresignal_enabled: false,
            rx_attenuation: 12,
            ps_tx_attenuation: 20,
            diversity_enabled: false,
            diversity_gain_db_bits: 0,
            diversity_phase_deg_bits: 0,
            rit_enabled: false,
            rit_offset_hz: 0,
            xit_enabled: false,
            xit_offset_hz: 0,
            ozy_firmware_path: None,
            ozy_fpga_path: None,
        }
    }
}

/// How a radio is reached.
#[derive(Clone, Copy, Debug, PartialEq, Eq, Structural)]
pub enum Transport {
    /// Protocol 1 framing over USB.
    OzyUsb,
    Protocol1,
    Protocol2,
}

/// Why a connection cannot be set up.
#[derive(Clone, Copy, Debug, PartialEq, Eq, Structural)]
pub enum StartError {
    UnknownProtocol(u8),
    OzyFirmwareMissing,
    OzyFpgaMissing,
}

/// The transport for a device; a classic Ozy is reached over USB whatever
/// protocol number it reports.
pub open spec fn transport_of(d: Device) -> Option<Transport> {
    if d.board == Boards::Ozy {
        Some(Transport::OzyUsb)
    } else if d.protocol == 1 {
        Some(Transport::Protocol1)
    } else if d.protocol == 2 {
        Some(Transport::Protocol2)
    } else {
        None
    }
}

pub open spec fn larger(a: int, b: int) -> int {
    if a < b {
        b
    } else {
        a
    }
}

pub open spec fn smaller(a: int, b: int) -> int {
    if a < b {
        a
    } else {
        b
    }
}

/// Receivers that the user gets, where `wanted` are asked for. Feedback
/// slots are left out on every board that has them, and diversity needs two.
pub open spec fn user_receivers(t: Transport, board: Boards, wanted: u8, diversity: bool) -> int {
    let asked = larger(wanted as int, 1);
    match t {
        Transport::OzyUsb => smaller(asked, 2),
        Transport::Protocol1 => {
            let room = match boards::ps_feedback(1, board) {
                Some(f) => match f.max_real_receivers {
                    Some(n) => smaller(asked, n as int),
                    None => asked,
                },
                None => asked,
            };
            if diversity {
                larger(room, 2)
            } else {
                room
            }
        },
        Transport::Protocol2 => {
            let room = larger(asked - 2, 1);
            if diversity {
                larger(room, 2)
            } else {
                room
            }
        },
    }
}

/// Plans how many receivers the user gets.
pub fn plan_receivers(t: Transport, board: Boards, wanted: u8, diversity: bool) -> (n: u8)
    ensures
        n == user_receivers(t, board, wanted, diversity),
{
    let asked: u8 = if wanted == 0 {
        1
    } else {
        wanted
    };
    let room: u8 = match t {
        Transport::OzyUsb => {
            return if asked < 2 {
                asked
            } else {
                2
            };
        },
        Transport::Protocol1 => match ps_feedback_config(1, board) {
            Some(PsFeedback { max_real_receivers: Some(n), .. }) => if asked < n {
                asked
            } else {
                n
            },
            _ => asked,
        },
        Transport::Protocol2 => if asked <= 3 {
            1
        } else {
            asked - 2
        },
    };
    if diversity && room < 2 {
        2
    } else {
        room
    }
}

/// Receivers on the wire where feedback slots fix the number, on protocol 1.
pub open spec fn wire_total(t: Transport, board: Boards) -> Option<u8> {
    match (t, boards::ps_feedback(1, board)) {
        (Transport::Protocol1, Some(f)) => Some((f.tx_feedback_idx + 1) as u8),
        _ => None,
    }
}

/// Feedback slots on the wire, on protocol 1.
pub open spec fn feedback_slots(t: Transport, board: Boards) -> Option<PsSlots> {
    match (t, boards::ps_feedback(1, board)) {
        (Transport::Protocol1, Some(f)) => Some(
            PsSlots { rx: f.rx_feedback_idx, tx: f.tx_feedback_idx },
        ),
        _ => None,
    }
}

/// A file the user chose, or else the one that comes with the program.
pub fn ozy_file(chosen: Option<String>, bundled: Option<String>, missing: StartError) -> (r: Result<
    String,
    StartError,
>)
    ensures
        match r {
            Ok(path) => match chosen {
                Some(c) => path@ == c@,
                None => bundled is Some && path@ == bundled->0@,
            },
            Err(e) => e == missing && chosen is None && bundled is None,
        },
{
    match chosen {
        Some(path) => Ok(path),
        None => match bundled {
            Some(path) => Ok(path),
            None => Err(missing),
        },
    }
}

/// The settings that can be changed at any time.
#[derive(Clone, Copy, Debug, PartialEq, Eq, Structural)]
pub struct Controls {
    pub frequency_hz: u32,
    pub tx_frequency_hz: u32,
    pub rx_frequency_hz: u32,
    pub requested_frequency_hz: u32,
    pub sample_rate: u32,
    pub adc: u32,
    pub rx_antenna: u32,
    pub tx_antenna: u32,
    pub disable_pa: bool,
    pub tune_active: bool,
    pub cw_mode_active: bool,
    pub oc_rx: u8,
    pub oc_tx: u8,
    pub rx_attenuation: u32,
    pub ps_tx_attenuation: u32,
    pub puresignal_enabled: bool,
    pub diversity_gain_db_bits: u32,
    pub diversity_phase_deg_bits: u32,
    pub mute_local_audio_for_tci: bool,
    pub rit_enabled: bool,
    pub rit_offset_hz: i32,
    pub xit_enabled: bool,
    pub xit_offset_hz: i32,
    pub tx_audio_source: u8,
    pub tci_wants_mic: bool,
    pub mic_ptt_enabled: bool,
    pub mic_bias_enabled: bool,
    pub mic_ptt_on_tip: bool,
    pub send_rx_audio_to_radio: bool,
    pub hl2_ak4951_codec: bool,
    pub new_pa_board: bool,
    pub tx_power_watts: u32,
    pub pa_gain_db_bits: u32,
}

/// The live state of a connection.
#[derive(Debug)]
pub struct RadioSession {
    pub device: Device,
    pub transport: Transport,
    /// Receivers that there are sample queues for.
    pub receivers: usize,
    pub controls: Controls,
    pub extra_frequencies_hz: Vec<u32>,
    pub extra_sample_rates_hz: Vec<u32>,
    pub extra_adcs: Vec<u32>,
    pub active_receiver_count: u32,
    pub diversity_enabled: bool,
    pub mox: bool,
    /// Whether the diversity combiner is running.
    pub combiner_running: bool,
    /// Whether the threads have been told to end.
    pub stopping: bool,
}

/// `s` is how a connection to `d` begins.
pub open spec fn is_initial(s: RadioSession, d: Device, set: RadioSettings) -> bool {
    &&& s.device == d
    &&& transport_of(d) == Some(s.transport)
    &&& s.receivers == user_receivers(s.transport, d.board, set.receivers, set.diversity_enabled)
    &&& s.controls.frequency_hz == set.frequency_hz
    &&& s.controls.tx_frequency_hz == set.frequency_hz
    &&& s.controls.rx_frequency_hz == set.frequency_hz
    &&& s.controls.requested_frequency_hz == set.frequency_hz
    &&& s.controls.sample_rate == set.sample_rate
    &&& s.controls.adc == 0
    &&& s.controls.rx_antenna == 0
    &&& s.controls.tx_antenna == 0
    &&& !s.controls.disable_pa
    &&& !s.controls.tune_active
    &&& !s.controls.cw_mode_active
    &&& s.controls.oc_rx == 0
    &&& s.controls.oc_tx == 0
    &&& s.controls.rx_attenuation == set.rx_attenuation
    &&& s.controls.ps_tx_attenuation == set.ps_tx_attenuation
    &&& s.extra_frequencies_hz@ == Seq::new(
        larger(s.receivers - 1, 0) as nat,
        |i: int| set.frequency_hz,
    )
    &&& s.extra_sample_rates_hz@ == Seq::new(
        larger(s.receivers - 1, 0) as nat,
        |i: int| set.sample_rate,
    )
    &&& s.extra_adcs@ == Seq::new(larger(s.receivers - 1, 0) as nat, |i: int| 0u32)
    &&& s.active_receiver_count == (if set.diversity_enabled && s.transport != Transport::OzyUsb {
        2u32
    } else {
        1u32
    })
    &&& s.diversity_enabled == set.diversity_enabled
    &&& s.controls.puresignal_enabled == set.puresignal_enabled
    &&& s.controls.diversity_gain_db_bits == set.diversity_gain_db_bits
    &&& s.controls.diversity_phase_deg_bits == set.diversity_phase_deg_bits
    &&& !s.mox
    &&& !s.controls.mute_local_audio_for_tci
    &&& s.controls.rit_enabled == set.rit_enabled
    &&& s.controls.rit_offset_hz == set.rit_offset_hz
    &&& s.controls.xit_enabled == set.xit_enabled
    &&& s.controls.xit_offset_hz == set.xit_offset_hz
    &&& s.controls.tx_audio_source == TX_AUDIO_SOURCE_AUTO
    &&& !s.controls.tci_wants_mic
    &&& !s.controls.mic_ptt_enabled
    &&& !s.controls.mic_bias_enabled
    &&& !s.controls.mic_ptt_on_tip
    &&& !s.controls.send_rx_audio_to_radio
    &&& !s.controls.hl2_ak4951_codec
    &&& !s.controls.new_pa_board
    &&& s.controls.tx_power_watts == 2
    &&& s.controls.pa_gain_db_bits == DEFAULT_PA_GAIN_DB_BITS
    &&& s.combiner_running == set.diversity_enabled
    &&& !s.stopping
}

/// What to do about the diversity combiner.
#[derive(Clone, Copy, Debug, PartialEq, Eq, Structural)]
pub enum CombinerChange {
    Nothing,
    Spawn,
    Stop,
}

/// The steps that end a connection.
#[derive(Clone, Copy, Debug, PartialEq, Eq, Structural)]
pub enum StopStep {
    JoinSender,
    JoinTxIq,
    JoinRxAudio,
    SendStop,
    JoinReceiver,
    JoinI2c,
    StopCombiner,
}

/// The request that stops a radio, and the port it goes to.
#[derive(Debug)]
pub struct StopCommand {
    pub port: u16,
    pub bytes: Vec<u8>,
}

/// A session with diversity turned on or off.
pub open spec fn with_diversity(s: RadioSession, enabled: bool) -> RadioSession {
    let active = if enabled && s.active_receiver_count < 2 {
        2u32
    } else {
        s.active_receiver_count
    };
    RadioSession {
        diversity_enabled: enabled,
        active_receiver_count: active,
        combiner_running: enabled,
        ..s
    }
}

fn filled(v: u32, n: usize) -> (list: Vec<u32>)
    ensures
        list@ == Seq::new(n as nat, |i: int| v),
{
    let mut list: Vec<u32> = Vec::new();
    for i in 0..n
        invariant
            list@ == Seq::new(i as nat, |j: int| v),
    {
        list.push(v);
        assert(list@ =~= Seq::new((i + 1) as nat, |j: int| v));
    }
    list
}

fn copied(v: &Vec<u32>) -> (c: Vec<u32>)
    ensures
        c@ == v@,
{
    vstd::slice::slice_to_vec(v.as_slice())
}

impl RadioSession {
    /// Active receivers all have a queue, apart from the first on boards
    /// whose every slot is reserved, and a running combiner has its two.
    pub open spec fn wf(self) -> bool {
        &&& 1 <= self.active_receiver_count
        &&& self.active_receiver_count == 1 || self.active_receiver_count <= self.receivers
        &&& self.receivers <= 255
        &&& self.combiner_running ==> self.receivers >= 2
    }

    /// Sets up the state of a new connection. The combiner of a session
    /// that starts with diversity on needs a second receiver, which a
    /// classic Ozy has only where two are asked for.
    pub fn start(device: Device, settings: &RadioSettings) -> (r: Result<RadioSession, StartError>)
        requires
            device.board == Boards::Ozy && settings.diversity_enabled ==> settings.receivers >= 2,
        ensures
            match r {
                Ok(s) => is_initial(s, device, *settings) && s.wf(),
                Err(e) => transport_of(device) is None && e == StartError::UnknownProtocol(
                    device.protocol,
                ),
            },
    {
        let transport: Transport = if device.board == Boards::Ozy {
            Transport::OzyUsb
        } else if device.protocol == 1 {
            Transport::Protocol1
        } else if device.protocol == 2 {
            Transport::Protocol2
        } else {
            return Err(StartError::UnknownProtocol(device.protocol));
        };
        let receivers: usize = plan_receivers(
            transport,
            device.board,
            settings.receivers,
            settings.diversity_enabled,
        ) as usize;
        let extra: usize = if receivers == 0 {
            0
        } else {
            receivers - 1
        };
        let paired: bool = settings.diversity_enabled && transport != Transport::OzyUsb;
        Ok(
            RadioSession {
                device,
                transport,
                receivers,
                controls: Controls {
                    frequency_hz: settings.frequency_hz,
                    tx_frequency_hz: settings.frequency_hz,
                    rx_frequency_hz: settings.frequency_hz,
                    requested_frequency_hz: settings.frequency_hz,
                    sample_rate: settings.sample_rate,
                    adc: 0,
                    rx_antenna: 0,
                    tx_antenna: 0,
                    disable_pa: false,
                    tune_active: false,
                    cw_mode_active: false,
                    oc_rx: 0,
                    oc_tx: 0,
                    rx_attenuation: settings.rx_attenuation,
                    ps_tx_attenuation: settings.ps_tx_attenuation,
                    puresignal_enabled: settings.puresignal_enabled,
                    diversity_gain_db_bits: settings.diversity_gain_db_bits,
                    diversity_phase_deg_bits: settings.diversity_phase_deg_bits,
                    mute_local_audio_for_tci: false,
                    rit_enabled: settings.rit_enabled,
                    rit_offset_hz: settings.rit_offset_hz,
                    xit_enabled: settings.xit_enabled,
                    xit_offset_hz: settings.xit_offset_hz,
                    tx_audio_source: TX_AUDIO_SOURCE_AUTO,
                    tci_wants_mic: false,
                    mic_ptt_enabled: false,
                    mic_bias_enabled: false,
                    mic_ptt_on_tip: false,
                    send_rx_audio_to_radio: false,
                    hl2_ak4951_codec: false,
                    new_pa_board: false,
                    tx_power_watts: 2,
                    pa_gain_db_bits: DEFAULT_PA_GAIN_DB_BITS,
                },
                extra_frequencies_hz: filled(settings.frequency_hz, extra),
                extra_sample_rates_hz: filled(settings.sample_rate, extra),
                extra_adcs: filled(0, extra),
                active_receiver_count: if paired {
                    2
                } else {
                    1
                },
                diversity_enabled: settings.diversity_enabled,
                mox: false,
                combiner_running: settings.diversity_enabled,
                stopping: false,
            },
        )
    }

    /// Keys or unkeys the transmitter.
    pub fn set_mox(&mut self, on: bool)
        ensures
            *final(self) == (RadioSession { mox: on, ..*old(self) }),
    {
        self.mox = on;
    }

    pub fn mox_active(&self) -> (on: bool)
        ensures
            on == self.mox,
    {
        self.mox
    }

    /// Retunes the first receiver.
    pub fn set_frequency(&mut self, hz: u32)
        ensures
            *final(self) == (RadioSession {
                controls: Controls { frequency_hz: hz, ..old(self).controls },
                ..*old(self)
            }),
    {
        self.controls.frequency_hz = hz;
    }

    /// Changes the sample rate: of all receivers on protocol 1, of the first
    /// on protocol 2.
    pub fn set_sample_rate(&mut self, hz: u32)
        ensures
            *final(self) == (RadioSession {
                controls: Controls { sample_rate: hz, ..old(self).controls },
                ..*old(self)
            }),
    {
        self.controls.sample_rate = hz;
    }

    /// Activates the next receiver and returns its index, if there is one
    /// left.
    pub fn add_receiver(&mut self) -> (added: Option<usize>)
        requires
            old(self).wf(),
        ensures
            final(self).wf(),
            old(self).active_receiver_count < old(self).receivers ==> added == Some(
                old(self).active_receiver_count as usize,
            ) && *final(self) == (RadioSession {
                active_receiver_count: (old(self).active_receiver_count + 1) as u32,
                ..*old(self)
            }),
            old(self).active_receiver_count >= old(self).receivers ==> added is None
                && *final(self) == *old(self),
    {
        let current: usize = self.active_receiver_count as usize;
        if current >= self.receivers {
            return None;
        }
        self.active_receiver_count = self.active_receiver_count + 1;
        Some(current)
    }

    /// Turns diversity on or off. Turning it on activates the second
    /// receiver, which it needs.
    pub fn set_diversity_enabled(&mut self, enabled: bool) -> (change: CombinerChange)
        requires
            old(self).wf(),
            enabled ==> old(self).receivers >= 2,
        ensures
            final(self).wf(),
            *final(self) == with_diversity(*old(self), enabled),
            change == (if enabled && !old(self).combiner_running {
                CombinerChange::Spawn
            } else if !enabled && old(self).combiner_running {
                CombinerChange::Stop
            } else {
                CombinerChange::Nothing
            }),
    {
        let change: CombinerChange = if enabled == self.combiner_running {
            CombinerChange::Nothing
        } else if enabled {
            CombinerChange::Spawn
        } else {
            CombinerChange::Stop
        };
        if enabled && self.active_receiver_count < 2 {
            self.active_receiver_count = 2;
        }
        self.diversity_enabled = enabled;
        self.combiner_running = enabled;
        change
    }

    /// Turns PureSignal on or off. Its receiver slots are reserved in any
    /// case.
    pub fn set_puresignal_enabled(&mut self, enabled: bool)
        ensures
            *final(self) == (RadioSession {
                controls: Controls { puresignal_enabled: enabled, ..old(self).controls },
                ..*old(self)
            }),
    {
        self.controls.puresignal_enabled = enabled;
    }

    /// Ends the connection: unkeys, tells the threads to end, and returns
    /// what is left to do, in order. The senders end before the radio is
    /// told to stop, so that nothing sets it going again.
    pub fn stop(&mut self) -> (steps: Vec<StopStep>)
        ensures
            steps@ == seq![
                StopStep::JoinSender,
                StopStep::JoinTxIq,
                StopStep::JoinRxAudio,
                StopStep::SendStop,
                StopStep::JoinReceiver,
                StopStep::JoinI2c,
                StopStep::StopCombiner,
            ],
            *final(self) == (RadioSession {
                mox: false,
                stopping: true,
                combiner_running: false,
                ..*old(self)
            }),
    {
        self.mox = false;
        self.stopping = true;
        self.combiner_running = false;
        let mut steps: Vec<StopStep> = Vec::new();
        steps.push(StopStep::JoinSender);
        steps.push(StopStep::JoinTxIq);
        steps.push(StopStep::JoinRxAudio);
        steps.push(StopStep::SendStop);
        steps.push(StopStep::JoinReceiver);
        steps.push(StopStep::JoinI2c);
        steps.push(StopStep::StopCombiner);
        assert(steps@ =~= seq![
            StopStep::JoinSender,
            StopStep::JoinTxIq,
            StopStep::JoinRxAudio,
            StopStep::SendStop,
            StopStep::JoinReceiver,
            StopStep::JoinI2c,
            StopStep::StopCombiner,
        ]);
        steps
    }

    /// The request that stops the radio; over USB there is none.
    pub fn stop_command(&self) -> (c: Option<StopCommand>)
        ensures
            match self.transport {
                Transport::OzyUsb => c is None,
                Transport::Protocol1 => c is Some && c->0.port == DATA_PORT && c->0.bytes@
                    == p1_start::metis_request(METIS_STOP),
                Transport::Protocol2 => c is Some && c->0.port == P2_HIGH_PRIORITY_PORT
                    && c->0.bytes@ == bytes::zeros(P2_PACKET_SIZE as nat),
            },
    {
        match self.transport {
            Transport::OzyUsb => None,
            Transport::Protocol1 => {
                let p: [u8; 64] = metis_command(METIS_STOP);
                Some(
                    StopCommand {
                        port: DATA_PORT,
                        bytes: vstd::slice::slice_to_vec(p.as_slice()),
                    },
                )
            },
            Transport::Protocol2 => {
                let p: [u8; P2_PACKET_SIZE] = [0u8; P2_PACKET_SIZE];
                assert(p@ =~= bytes::zeros(P2_PACKET_SIZE as nat));
                Some(
                    StopCommand {
                        port: P2_HIGH_PRIORITY_PORT,
                        bytes: vstd::slice::slice_to_vec(p.as_slice()),
                    },
                )
            },
        }
    }

    /// What stays fixed for the protocol 1 sender.
    pub fn p1_link(&self) -> (l: P1Link)
        ensures
            l.is_hermes_lite == boards::hermes_lite(self.device.board),
            l.is_orion2 == (self.device.board == Boards::Orion2),
            l.num_adcs == self.device.adcs,
            l.ps_wire_total == wire_total(self.transport, self.device.board),
            l.is_ozy == (self.transport == Transport::OzyUsb),
    {
        let total: Option<u8> = match self.transport {
            Transport::Protocol1 => match ps_feedback_config(1, self.device.board) {
                Some(f) => Some(f.tx_feedback_idx + 1),
                None => None,
            },
            _ => None,
        };
        P1Link {
            is_hermes_lite: is_hermes_lite(self.device.board),
            is_orion2: self.device.board == Boards::Orion2,
            num_adcs: self.device.adcs,
            ps_wire_total: total,
            is_ozy: self.transport == Transport::OzyUsb,
        }
    }

    /// What stays fixed for the protocol 2 sender.
    pub fn p2_link(&self) -> (l: P2Link)
        ensures
            l.num_adcs == self.device.adcs,
            l.is_orion2 == (self.device.board == Boards::Orion2),
    {
        P2Link { num_adcs: self.device.adcs, is_orion2: self.device.board == Boards::Orion2 }
    }

    /// A reading of the settings for a protocol 1 packet.
    pub fn p1_live(&self, drive_level: u8, cw_keyer: CwKeyerValues) -> (l: P1Live)
        ensures
            l.frequency_hz == self.controls.frequency_hz,
            l.tx_frequency_hz == self.controls.tx_frequency_hz,
            l.sample_rate == self.controls.sample_rate,
            l.mox == self.mox,
            l.active_receiver_count == self.active_receiver_count,
            l.extra_frequencies_hz@ == self.extra_frequencies_hz@,
            l.rx_antenna == self.controls.rx_antenna,
            l.tx_antenna == self.controls.tx_antenna,
            l.new_pa_board == self.controls.new_pa_board,
            l.drive_level == drive_level,
            l.cw_keyer == cw_keyer,
            l.cw_mode_active == self.controls.cw_mode_active,
            l.rx_attenuation == self.controls.rx_attenuation,
            l.ps_tx_attenuation == self.controls.ps_tx_attenuation,
            l.disable_pa == self.controls.disable_pa,
            l.tune_active == self.controls.tune_active,
            l.oc_rx == self.controls.oc_rx,
            l.oc_tx == self.controls.oc_tx,
            l.adc == self.controls.adc,
            l.extra_adcs@ == self.extra_adcs@,
            l.send_rx_audio_to_radio == self.controls.send_rx_audio_to_radio,
            l.hl2_ak4951_codec == self.controls.hl2_ak4951_codec,
            l.mic_ptt_enabled == self.controls.mic_ptt_enabled,
            l.mic_bias_enabled == self.controls.mic_bias_enabled,
            l.mic_ptt_on_tip == self.controls.mic_ptt_on_tip,
    {
        P1Live {
            frequency_hz: self.controls.frequency_hz,
            tx_frequency_hz: self.controls.tx_frequency_hz,
            sample_rate: self.controls.sample_rate,
            mox: self.mox,
            active_receiver_count: self.active_receiver_count,
            extra_frequencies_hz: copied(&self.extra_frequencies_hz),
            rx_antenna: self.controls.rx_antenna,
            tx_antenna: self.controls.tx_antenna,
            new_pa_board: self.controls.new_pa_board,
            drive_level,
            cw_keyer,
            cw_mode_active: self.controls.cw_mode_active,
            rx_attenuation: self.controls.rx_attenuation,
            ps_tx_attenuation: self.controls.ps_tx_attenuation,
            disable_pa: self.controls.disable_pa,
            tune_active: self.controls.tune_active,
            oc_rx: self.controls.oc_rx,
            oc_tx: self.controls.oc_tx,
            adc: self.controls.adc,
            extra_adcs: copied(&self.extra_adcs),
            send_rx_audio_to_radio: self.controls.send_rx_audio_to_radio,
            hl2_ak4951_codec: self.controls.hl2_ak4951_codec,
            mic_ptt_enabled: self.controls.mic_ptt_enabled,
            mic_bias_enabled: self.controls.mic_bias_enabled,
            mic_ptt_on_tip: self.controls.mic_ptt_on_tip,
        }
    }

    /// A reading of the settings for a protocol 2 cycle.
    pub fn p2_live(&self, drive_level: u8, cw_keyer: CwKeyerValues) -> (l: P2Live)
        ensures
            l.frequency_hz == self.controls.frequency_hz,
            l.tx_frequency_hz == self.controls.tx_frequency_hz,
            l.sample_rate == self.controls.sample_rate,
            l.adc == self.controls.adc,
            l.rx_antenna == self.controls.rx_antenna,
            l.tx_antenna == self.controls.tx_antenna,
            l.new_pa_board == self.controls.new_pa_board,
            l.disable_pa == self.controls.disable_pa,
            l.oc_rx == self.controls.oc_rx,
            l.oc_tx == self.controls.oc_tx,
            l.extra_frequencies_hz@ == self.extra_frequencies_hz@,
            l.extra_sample_rates_hz@ == self.extra_sample_rates_hz@,
            l.extra_adcs@ == self.extra_adcs@,
            l.active_receiver_count == self.active_receiver_count,
            l.mox == self.mox,
            l.drive_level == drive_level,
            l.cw_keyer == cw_keyer,
            l.cw_mode_active == self.controls.cw_mode_active,
            l.puresignal_enabled == self.controls.puresignal_enabled,
            l.ps_tx_attenuation == self.controls.ps_tx_attenuation,
            l.rx_attenuation == self.controls.rx_attenuation,
            l.mic_ptt_enabled == self.controls.mic_ptt_enabled,
            l.mic_bias_enabled == self.controls.mic_bias_enabled,
            l.mic_ptt_on_tip == self.controls.mic_ptt_on_tip,
            l.diversity_enabled == self.diversity_enabled,
    {
        P2Live {
            frequency_hz: self.controls.frequency_hz,
            tx_frequency_hz: self.controls.tx_frequency_hz,
            sample_rate: self.controls.sample_rate,
            adc: self.controls.adc,
            rx_antenna: self.controls.rx_antenna,
            tx_antenna: self.controls.tx_antenna,
            new_pa_board: self.controls.new_pa_board,
            disable_pa: self.controls.disable_pa,
            oc_rx: self.controls.oc_rx,
            oc_tx: self.controls.oc_tx,
            extra_frequencies_hz: copied(&self.extra_frequencies_hz),
            extra_sample_rates_hz: copied(&self.extra_sample_rates_hz),
            extra_adcs: copied(&self.extra_adcs),
            active_receiver_count: self.active_receiver_count,
            mox: self.mox,
            drive_level,
            cw_keyer,
            cw_mode_active: self.controls.cw_mode_active,
            puresignal_enabled: self.controls.puresignal_enabled,
            ps_tx_attenuation: self.controls.ps_tx_attenuation,
            rx_attenuation: self.controls.rx_attenuation,
            mic_ptt_enabled: self.controls.mic_ptt_enabled,
            mic_bias_enabled: self.controls.mic_bias_enabled,
            mic_ptt_on_tip: self.controls.mic_ptt_on_tip,
            diversity_enabled: self.diversity_enabled,
        }
    }

    /// How the protocol 1 stream is taken apart right now. Over USB neither
    /// feedback nor diversity exists.
    pub fn p1_demux(&self) -> (c: P1Demux)
        ensures
            c.receivers == p1_sender::wire_receivers(
                wire_total(self.transport, self.device.board),
                self.active_receiver_count,
            ),
            c.capacity == queue::buffer_capacity(self.controls.sample_rate),
            c.ps_feedback == feedback_slots(self.transport, self.device.board),
            c.diversity == (self.diversity_enabled && self.transport != Transport::OzyUsb),
    {
        let slots: Option<PsSlots> = match self.transport {
            Transport::Protocol1 => match ps_feedback_config(1, self.device.board) {
                Some(f) => Some(PsSlots { rx: f.rx_feedback_idx, tx: f.tx_feedback_idx }),
                None => None,
            },
            _ => None,
        };
        P1Demux {
            receivers: wire_receiver_count(
                self.p1_link().ps_wire_total,
                self.active_receiver_count,
            ),
            capacity: iq_buffer_capacity_for_rate(self.controls.sample_rate),
            ps_feedback: slots,
            diversity: self.diversity_enabled && self.transport != Transport::OzyUsb,
        }
    }
}

// ---------------------------------------------------------------------
// Laws
// ---------------------------------------------------------------------

/// Without diversity, the user's receivers and the feedback slots together
/// never exceed what the board streams: on protocol 1 the fixed total, on
/// protocol 2 the reported number, where that leaves room for a user's
/// receiver at all.
pub proof fn law_receivers_fit_board(board: Boards, wanted: u8)
    ensures
        wire_total(Transport::Protocol1, board) matches Some(total) ==> user_receivers(
            Transport::Protocol1,
            board,
            wanted,
            false,
        ) + 2 <= total,
        wanted >= 3 ==> user_receivers(Transport::Protocol2, board, wanted, false) + 2 <= wanted,
{
}

/// A user's receiver never sits on a feedback slot: the feedback slots come
/// last on protocol 1.
pub proof fn law_feedback_slots_come_last(board: Boards, wanted: u8)
    ensures
        feedback_slots(Transport::Protocol1, board) matches Some(f) ==> user_receivers(
            Transport::Protocol1,
            board,
            wanted,
            false,
        ) <= f.rx && f.tx == f.rx + 1,
{
}

/// A connection that asks for at least as many receivers as the board has
/// room for has a queue for every sample of the protocol 1 stream, so the
/// stream can be taken apart whatever the live settings are.
pub proof fn law_p1_queues_suffice(s: RadioSession, c: P1Demux, wanted: u8, diversity: bool)
    requires
        s.wf(),
        s.transport == Transport::Protocol1,
        s.receivers == user_receivers(s.transport, s.device.board, wanted, diversity),
        c.receivers == p1_sender::wire_receivers(
            wire_total(s.transport, s.device.board),
            s.active_receiver_count,
        ),
        c.ps_feedback == feedback_slots(s.transport, s.device.board),
        boards::ps_feedback(1, s.device.board) matches Some(f) ==> wanted
            >= f.max_real_receivers->0,
    ensures
        iq_stream::queues_suffice(c, s.receivers as nat),
{
}

/// An Ozy is reached over USB, whatever protocol is said to be; any other
/// board by its protocol, 1 or 2. With any other protocol there is no
/// connection.
pub proof fn law_transports(d: Device)
    ensures
        transport_of(d) == Some(Transport::OzyUsb) <==> d.board == Boards::Ozy,
        transport_of(d) == Some(Transport::Protocol1) <==> d.board != Boards::Ozy && d.protocol
            == 1,
        transport_of(d) == Some(Transport::Protocol2) <==> d.board != Boards::Ozy && d.protocol
            == 2,
        transport_of(d) is None <==> d.board != Boards::Ozy && d.protocol != 1 && d.protocol != 2,
{
}

/// How many receivers the user gets of those that are wanted, of which
/// there is always one. An Ozy has at most two. On protocol 1 a board with
/// feedback slots leaves 0, 2 or 3; on protocol 2 two of the board's
/// receivers are set aside. Diversity needs two in any case but over USB.
pub proof fn law_user_receivers(t: Transport, board: Boards, wanted: u8, diversity: bool)
    ensures
        ({
            let n = user_receivers(t, board, wanted, diversity);
            let asked = if wanted == 0 {
                1
            } else {
                wanted as int
            };
            let least = if diversity {
                2
            } else {
                0int
            };
            let most = if board == Boards::Metis || board == Boards::HermesLite {
                0
            } else if board == Boards::Hermes || board == Boards::Hermes2 || board
                == Boards::HermesLite2 {
                2
            } else if board == Boards::Angelia || board == Boards::Orion || board
                == Boards::Orion2 {
                3
            } else {
                255int
            };
            let left = if t == Transport::OzyUsb {
                if asked > 2 {
                    2
                } else {
                    asked
                }
            } else if t == Transport::Protocol1 {
                if asked > most {
                    most
                } else {
                    asked
                }
            } else if asked > 3 {
                asked - 2
            } else {
                1
            };
            n == (if t != Transport::OzyUsb && left < least {
                least
            } else {
                left
            })
        }),
{
}

/// Only protocol 1 has a fixed number of receivers on the wire, on boards
/// with feedback slots, which are the last two of them.
pub proof fn law_fixed_totals(t: Transport, board: Boards)
    ensures
        ({
            let total = wire_total(t, board);
            let p1 = t == Transport::Protocol1;
            &&& total == Some(2u8) <==> p1 && (board == Boards::Metis || board
                == Boards::HermesLite)
            &&& total == Some(4u8) <==> p1 && (board == Boards::Hermes || board == Boards::Hermes2
                || board == Boards::HermesLite2)
            &&& total == Some(5u8) <==> p1 && (board == Boards::Angelia || board == Boards::Orion
                || board == Boards::Orion2)
            &&& total is None <==> !p1 || board == Boards::Saturn || board == Boards::Ozy || board
                == Boards::Unknown
            &&& feedback_slots(t, board) is Some <==> total is Some
            &&& total matches Some(n) ==> feedback_slots(t, board)->0.rx == n - 2
                && feedback_slots(t, board)->0.tx == n - 1
        }),
{
}

/// A connection starts unkeyed and at low power, tuned in every respect to
/// the wanted frequency, at the wanted rate for all receivers, on the first
/// antenna, with one receiver active, or two for diversity, and with
/// everything optional off that was not asked for.
pub proof fn law_connections_start_as_wanted(
    s: RadioSession,
    d: Device,
    set: RadioSettings,
    k: int,
)
    requires
        is_initial(s, d, set),
    ensures
        !s.mox && !s.stopping && s.device == d,
        s.controls.tx_power_watts == 2,
        s.controls.frequency_hz == set.frequency_hz && s.controls.tx_frequency_hz
            == set.frequency_hz && s.controls.rx_frequency_hz == set.frequency_hz
            && s.controls.requested_frequency_hz == set.frequency_hz,
        s.controls.sample_rate == set.sample_rate,
        s.controls.rx_antenna == 0 && s.controls.tx_antenna == 0 && s.controls.adc == 0,
        s.controls.rx_attenuation == set.rx_attenuation && s.controls.ps_tx_attenuation
            == set.ps_tx_attenuation,
        s.controls.puresignal_enabled == set.puresignal_enabled,
        s.diversity_enabled == set.diversity_enabled && s.combiner_running
            == set.diversity_enabled,
        s.controls.diversity_gain_db_bits == set.diversity_gain_db_bits
            && s.controls.diversity_phase_deg_bits == set.diversity_phase_deg_bits,
        s.controls.rit_enabled == set.rit_enabled && s.controls.rit_offset_hz == set.rit_offset_hz,
        s.controls.xit_enabled == set.xit_enabled && s.controls.xit_offset_hz == set.xit_offset_hz,
        s.active_receiver_count == (if set.diversity_enabled && d.board != Boards::Ozy {
            2int
        } else {
            1
        }),
        s.extra_frequencies_hz@.len() == (if s.receivers == 0 {
            0
        } else {
            s.receivers - 1
        }),
        s.extra_sample_rates_hz@.len() == s.extra_frequencies_hz@.len(),
        s.extra_adcs@.len() == s.extra_frequencies_hz@.len(),
        0 <= k < s.extra_frequencies_hz@.len() ==> s.extra_frequencies_hz@[k] == set.frequency_hz
            && s.extra_sample_rates_hz@[k] == set.sample_rate && s.extra_adcs@[k] == 0,
        !s.controls.disable_pa && !s.controls.tune_active && !s.controls.cw_mode_active
            && s.controls.oc_rx == 0 && s.controls.oc_tx == 0,
        !s.controls.mic_ptt_enabled && !s.controls.mic_bias_enabled && !s.controls.mic_ptt_on_tip
            && !s.controls.send_rx_audio_to_radio && !s.controls.hl2_ak4951_codec
            && !s.controls.new_pa_board && !s.controls.mute_local_audio_for_tci
            && !s.controls.tci_wants_mic && s.controls.tx_audio_source == 0,
{
}

/// Turning diversity on activates the second receiver where only one was
/// active, and turning it off leaves the receivers as they are. The combiner
/// runs exactly while it is on. Nothing else changes.
pub proof fn law_diversity_switch(s: RadioSession, enabled: bool)
    ensures
        ({
            let t = with_diversity(s, enabled);
            &&& t.diversity_enabled == enabled && t.combiner_running == enabled
            &&& t.active_receiver_count == (if enabled && s.active_receiver_count < 2 {
                2
            } else {
                s.active_receiver_count as int
            })
            &&& t.controls == s.controls && t.mox == s.mox && t.receivers == s.receivers
                && t.stopping == s.stopping && t.device == s.device && t.transport == s.transport
        }),
{
}

} // verus!
