//! Filter and antenna relay words of the Alex front ends.
use vstd::prelude::*;

verus! {

/// The receive filter that a frequency falls into.
#[derive(Clone, Copy, Debug, PartialEq, Eq, Structural)]
pub enum RxFilter {
    Bypass,
    M160,
    M80M60,
    M40M30,
    M20M15,
    M12M10,
    M6,
}

pub open spec fn rx_filter_for(freq_hz: u32) -> RxFilter {
    if freq_hz < 1_500_000 {
        RxFilter::Bypass
    } else if freq_hz < 2_100_000 {
        RxFilter::M160
    } else if freq_hz < 5_500_000 {
        RxFilter::M80M60
    } else if freq_hz < 11_000_000 {
        RxFilter::M40M30
    } else if freq_hz < 22_000_000 {
        RxFilter::M20M15
    } else if freq_hz < 35_000_000 {
        RxFilter::M12M10
    } else {
        RxFilter::M6
    }
}

pub fn rx_filter(freq_hz: u32) -> (f: RxFilter)
    ensures
        f == rx_filter_for(freq_hz),
{
    if freq_hz < 1_500_000 {
        RxFilter::Bypass
    } else if freq_hz < 2_100_000 {
        RxFilter::M160
    } else if freq_hz < 5_500_000 {
        RxFilter::M80M60
    } else if freq_hz < 11_000_000 {
        RxFilter::M40M30
    } else if freq_hz < 22_000_000 {
        RxFilter::M20M15
    } else if freq_hz < 35_000_000 {
        RxFilter::M12M10
    } else {
        RxFilter::M6
    }
}

/// The bit of the first Alex word that selects a receive filter.
pub open spec fn hpf_bit(f: RxFilter) -> u32 {
    match f {
        RxFilter::Bypass => 0x1000,
        RxFilter::M160 => 0x40,
        RxFilter::M80M60 => 0x20,
        RxFilter::M40M30 => 0x10,
        RxFilter::M20M15 => 0x02,
        RxFilter::M12M10 => 0x04,
        RxFilter::M6 => 0x08,
    }
}

/// The bit of the first Alex word that selects a transmit low-pass filter.
pub open spec fn lpf_bit(freq_hz: u32) -> u32 {
    if freq_hz > 32_000_000 {
        0x2000_0000
    } else if freq_hz > 22_000_000 {
        0x4000_0000
    } else if freq_hz > 15_000_000 {
        0x8000_0000
    } else if freq_hz > 8_000_000 {
        0x0010_0000
    } else if freq_hz > 4_500_000 {
        0x0020_0000
    } else if freq_hz > 2_400_000 {
        0x0040_0000
    } else if freq_hz > 1_500_000 {
        0x0080_0000
    } else {
        0x2000_0000
    }
}

pub const ALEX_TR_RELAY: u32 = 0x0800_0000;

pub const ALEX_PS_BIT: u32 = 0x0004_0000;

/// Antenna ports as the settings number them: the three main connectors,
/// two auxiliary receive inputs and the transverter input.
pub const ANTENNA_EXT1: u32 = 3;

pub const ANTENNA_EXT2: u32 = 4;

pub const ANTENNA_XVTR: u32 = 5;

/// Everything the relay words depend on besides the frequency.
#[derive(Clone, Copy, Debug, PartialEq, Eq, Structural)]
pub struct AntennaState {
    pub rx_antenna: u32,
    pub tx_antenna: u32,
    pub mox: bool,
    pub is_orion2: bool,
    pub new_pa_board: bool,
}

/// The port in use: the transmit one while keyed, else the receive one.
pub open spec fn port_in_use(a: AntennaState) -> u32 {
    if a.mox {
        a.tx_antenna
    } else {
        a.rx_antenna
    }
}

/// Routing of an auxiliary input on the first Alex word. Orion2 boards have
/// no second auxiliary jack and use a master select bit; older power
/// amplifier boards need the bypass relay.
pub open spec fn alex_aux_bits(a: AntennaState) -> u32 {
    let relay = if a.is_orion2 {
        0x4000u32
    } else if a.new_pa_board {
        0u32
    } else {
        0x0800u32
    };
    if port_in_use(a) == ANTENNA_EXT1 || (port_in_use(a) == ANTENNA_EXT2 && a.is_orion2) {
        0x0200u32 | relay
    } else if port_in_use(a) == ANTENNA_EXT2 {
        0x0400u32 | relay
    } else if port_in_use(a) == ANTENNA_XVTR {
        0x0100u32 | relay
    } else {
        0u32
    }
}

/// Position of the main antenna relay: connector 0, 1 or 2, or `None` where
/// an auxiliary input is in use on a board that has to disconnect all three.
/// Orion2 boards never have to, whatever the amplifier setting says.
pub open spec fn main_connector(a: AntennaState) -> Option<u32> {
    if port_in_use(a) <= 2 {
        Some(port_in_use(a))
    } else if a.new_pa_board && !a.is_orion2 {
        None
    } else if a.tx_antenna <= 2 {
        Some(a.tx_antenna)
    } else {
        Some(2u32)
    }
}

pub open spec fn connector_bit(c: Option<u32>) -> u32 {
    match c {
        None => 0u32,
        Some(n) => if n == 0 {
            0x0100_0000u32
        } else if n == 1 {
            0x0200_0000u32
        } else {
            0x0400_0000u32
        },
    }
}

/// The first Alex word.
pub open spec fn alex0(
    freq_hz: u32,
    a: AntennaState,
    disable_pa: bool,
    puresignal: bool,
) -> u32 {
    hpf_bit(rx_filter_for(freq_hz)) | lpf_bit(freq_hz) | connector_bit(main_connector(a))
        | alex_aux_bits(a) | (if a.mox && !disable_pa {
        ALEX_TR_RELAY
    } else {
        0
    }) | (if a.mox && puresignal {
        ALEX_PS_BIT
    } else {
        0
    })
}

/// Position of the main antenna relay for the port in use.
pub fn antenna_connector(a: AntennaState) -> (c: Option<u32>)
    ensures
        c == main_connector(a),
{
    let port: u32 = if a.mox {
        a.tx_antenna
    } else {
        a.rx_antenna
    };
    if port <= 2 {
        Some(port)
    } else if a.new_pa_board && !a.is_orion2 {
        None
    } else if a.tx_antenna <= 2 {
        Some(a.tx_antenna)
    } else {
        Some(2)
    }
}

/// Builds the first Alex word: receive filter, low-pass filter, antenna
/// relay, transmit/receive relay and the feedback coupler bit.
pub fn alex0_word(freq_hz: u32, a: AntennaState, disable_pa: bool, puresignal: bool) -> (w: u32)
    ensures
        w == alex0(freq_hz, a, disable_pa, puresignal),
{
    let hpf: u32 = match rx_filter(freq_hz) {
        RxFilter::Bypass => 0x1000,
        RxFilter::M160 => 0x40,
        RxFilter::M80M60 => 0x20,
        RxFilter::M40M30 => 0x10,
        RxFilter::M20M15 => 0x02,
        RxFilter::M12M10 => 0x04,
        RxFilter::M6 => 0x08,
    };
    let lpf: u32 = if freq_hz > 32_000_000 {
        0x2000_0000
    } else if freq_hz > 22_000_000 {
        0x4000_0000
    } else if freq_hz > 15_000_000 {
        0x8000_0000
    } else if freq_hz > 8_000_000 {
        0x0010_0000
    } else if freq_hz > 4_500_000 {
        0x0020_0000
    } else if freq_hz > 2_400_000 {
        0x0040_0000
    } else if freq_hz > 1_500_000 {
        0x0080_0000
    } else {
        0x2000_0000
    };
    let port: u32 = if a.mox {
        a.tx_antenna
    } else {
        a.rx_antenna
    };
    let relay: u32 = if a.is_orion2 {
        0x4000
    } else if a.new_pa_board {
        0
    } else {
        0x0800
    };
    let aux: u32 = if port == ANTENNA_EXT1 || (port == ANTENNA_EXT2 && a.is_orion2) {
        0x0200 | relay
    } else if port == ANTENNA_EXT2 {
        0x0400 | relay
    } else if port == ANTENNA_XVTR {
        0x0100 | relay
    } else {
        0
    };
    let ant: u32 = match antenna_connector(a) {
        None => 0,
        Some(n) => if n == 0 {
            0x0100_0000
        } else if n == 1 {
            0x0200_0000
        } else {
            0x0400_0000
        },
    };
    let tr: u32 = if a.mox && !disable_pa {
        ALEX_TR_RELAY
    } else {
        0
    };
    let ps: u32 = if a.mox && puresignal {
        ALEX_PS_BIT
    } else {
        0
    };
    hpf | lpf | ant | aux | tr | ps
}

/// The bit of the second Alex word that selects a receive filter.
pub open spec fn bpf_bit(f: RxFilter) -> u16 {
    match f {
        RxFilter::Bypass => 0x1000,
        RxFilter::M160 => 0x40,
        RxFilter::M80M60 => 0x20,
        RxFilter::M40M30 => 0x10,
        RxFilter::M20M15 => 0x02,
        RxFilter::M12M10 => 0x04,
        RxFilter::M6 => 0x08,
    }
}

/// Low half of the second Alex word: the second receiver's filter, and the
/// bit that grounds its input while keyed.
pub open spec fn alex1(freq_hz: u32, mox: bool) -> u16 {
    bpf_bit(rx_filter_for(freq_hz)) | (if mox {
        0x0100u16
    } else {
        0u16
    })
}

pub fn alex1_word(freq_hz: u32, mox: bool) -> (w: u16)
    ensures
        w == alex1(freq_hz, mox),
{
    let bpf: u16 = match rx_filter(freq_hz) {
        RxFilter::Bypass => 0x1000,
        RxFilter::M160 => 0x40,
        RxFilter::M80M60 => 0x20,
        RxFilter::M40M30 => 0x10,
        RxFilter::M20M15 => 0x02,
        RxFilter::M12M10 => 0x04,
        RxFilter::M6 => 0x08,
    };
    let gnd: u16 = if mox {
        0x0100
    } else {
        0
    };
    bpf | gnd
}

proof fn lemma_word_bits(h: u32, l: u32, c: u32, x: u32, t: u32, p: u32)
    by (bit_vector)
    requires
        h & 0x107E == h,
        l & 0xE0F0_0000 == l,
        c & 0x0700_0000 == c,
        x & 0x4F00 == x,
        t & 0x0800_0000 == t,
        p & 0x0004_0000 == p,
    ensures
        (h | l | c | x | t | p) & 0x0800_0000 == t,
        (h | l | c | x | t | p) & 0x0004_0000 == p,
        (h | l | c | x | t | p) & 0x107E == h,
        (h | l | c | x | t | p) & 0xE0F0_0000 == l,
        (h | l | c | x | t | p) & 0x0700_0000 == c,
        (h | l | c | x | t | p) & 0x4F00 == x,
{
}

/// The fields of the first Alex word do not disturb each other: each can be
/// read back out of the finished word. In particular the transmit relay is
/// closed exactly while keyed with the amplifier enabled, and the feedback
/// coupler is on exactly while keyed with PureSignal on.
pub proof fn law_alex0_fields(freq_hz: u32, a: AntennaState, disable_pa: bool, puresignal: bool)
    ensures
        alex0(freq_hz, a, disable_pa, puresignal) & ALEX_TR_RELAY == (if a.mox && !disable_pa {
            ALEX_TR_RELAY
        } else {
            0
        }),
        alex0(freq_hz, a, disable_pa, puresignal) & ALEX_PS_BIT == (if a.mox && puresignal {
            ALEX_PS_BIT
        } else {
            0
        }),
        alex0(freq_hz, a, disable_pa, puresignal) & 0x107E == hpf_bit(rx_filter_for(freq_hz)),
        alex0(freq_hz, a, disable_pa, puresignal) & 0xE0F0_0000 == lpf_bit(freq_hz),
        alex0(freq_hz, a, disable_pa, puresignal) & 0x0700_0000 == connector_bit(
            main_connector(a),
        ),
        alex0(freq_hz, a, disable_pa, puresignal) & 0x4F00 == alex_aux_bits(a),
{
    let h = hpf_bit(rx_filter_for(freq_hz));
    let l = lpf_bit(freq_hz);
    let c = connector_bit(main_connector(a));
    let x = alex_aux_bits(a);
    let t: u32 = if a.mox && !disable_pa {
        ALEX_TR_RELAY
    } else {
        0
    };
    let p: u32 = if a.mox && puresignal {
        ALEX_PS_BIT
    } else {
        0
    };
    lemma_field_masks();
    assert(h & 0x107E == h);
    assert(l & 0xE0F0_0000 == l);
    assert(c & 0x0700_0000 == c);
    assert(x & 0x4F00 == x);
    lemma_word_bits(h, l, c, x, t, p);
}

/// The newer-amplifier setting means nothing on an Orion2 board: neither the
/// relay positions nor the first Alex word depend on it.
pub proof fn law_orion2_ignores_amplifier(
    freq_hz: u32,
    a: AntennaState,
    new_pa_board: bool,
    disable_pa: bool,
    puresignal: bool,
)
    requires
        a.is_orion2,
    ensures
        main_connector(AntennaState { new_pa_board, ..a }) == main_connector(a),
        alex_aux_bits(AntennaState { new_pa_board, ..a }) == alex_aux_bits(a),
        alex0(freq_hz, AntennaState { new_pa_board, ..a }, disable_pa, puresignal) == alex0(
            freq_hz,
            a,
            disable_pa,
            puresignal,
        ),
{
}

proof fn lemma_word_rest(h: u32, l: u32, c: u32, x: u32, t: u32, p: u32)
    by (bit_vector)
    requires
        h & 0x107E == h,
        l & 0xE0F0_0000 == l,
        c & 0x0700_0000 == c,
        x & 0x4F00 == x,
        t & 0x0800_0000 == t,
        p & 0x0004_0000 == p,
    ensures
        (h | l | c | x | t | p) & 0x100B_A081 == 0,
        (h | l | c | x | t | p) & 0x0100 == x & 0x0100,
        (h | l | c | x | t | p) & 0x0200 == x & 0x0200,
        (h | l | c | x | t | p) & 0x0400 == x & 0x0400,
        (h | l | c | x | t | p) & 0x0800 == x & 0x0800,
        (h | l | c | x | t | p) & 0x4000 == x & 0x4000,
{
}

/// Each low-pass filter is selected for exactly its own range of
/// frequencies, the one for 6 m also where no other fits.
pub proof fn law_low_pass_filters_have_their_ranges(
    freq_hz: u32,
    a: AntennaState,
    disable_pa: bool,
    puresignal: bool,
)
    ensures
        ({
            let filter = alex0(freq_hz, a, disable_pa, puresignal) & 0xE0F0_0000;
            &&& filter == 0x0080_0000 <==> 1_500_000 < freq_hz <= 2_400_000
            &&& filter == 0x0040_0000 <==> 2_400_000 < freq_hz <= 4_500_000
            &&& filter == 0x0020_0000 <==> 4_500_000 < freq_hz <= 8_000_000
            &&& filter == 0x0010_0000 <==> 8_000_000 < freq_hz <= 15_000_000
            &&& filter == 0x8000_0000 <==> 15_000_000 < freq_hz <= 22_000_000
            &&& filter == 0x4000_0000 <==> 22_000_000 < freq_hz <= 32_000_000
            &&& filter == 0x2000_0000 <==> freq_hz <= 1_500_000 || freq_hz > 32_000_000
        }),
{
    law_alex0_fields(freq_hz, a, disable_pa, puresignal);
}

/// Each receive filter is selected for exactly its own range of
/// frequencies, on both front ends, and the bypass below all of them.
pub proof fn law_receive_filters_have_their_ranges(
    freq_hz: u32,
    a: AntennaState,
    disable_pa: bool,
    puresignal: bool,
    mox: bool,
)
    ensures
        ({
            let filter = alex0(freq_hz, a, disable_pa, puresignal) & 0x107E;
            &&& filter == 0x1000 <==> freq_hz < 1_500_000
            &&& filter == 0x0040 <==> 1_500_000 <= freq_hz < 2_100_000
            &&& filter == 0x0020 <==> 2_100_000 <= freq_hz < 5_500_000
            &&& filter == 0x0010 <==> 5_500_000 <= freq_hz < 11_000_000
            &&& filter == 0x0002 <==> 11_000_000 <= freq_hz < 22_000_000
            &&& filter == 0x0004 <==> 22_000_000 <= freq_hz < 35_000_000
            &&& filter == 0x0008 <==> 35_000_000 <= freq_hz
            &&& alex1(freq_hz, mox) as u32 & 0x107E == filter
        }),
{
    law_alex0_fields(freq_hz, a, disable_pa, puresignal);
    law_alex1_fields(freq_hz, mox);
}

/// The second Alex word grounds its receiver's input exactly while keyed,
/// selects the receive filter, and holds nothing else.
pub proof fn law_alex1_fields(freq_hz: u32, mox: bool)
    ensures
        alex1(freq_hz, mox) & 0x0100 == 0x0100 <==> mox,
        alex1(freq_hz, mox) & 0xEE81 == 0,
        alex1(freq_hz, mox) as u32 & 0x107E == hpf_bit(rx_filter_for(freq_hz)),
{
    let b = bpf_bit(rx_filter_for(freq_hz));
    assert(forall|v: u16|
        v == 0x1000 || v == 0x40 || v == 0x20 || v == 0x10 || v == 2 || v == 4 || v == 8 ==> (
        #[trigger] (v | 0x0100) & 0x0100 == 0x0100 && (v | 0) & 0x0100 == 0 && (v | 0x0100) & 0xEE81
            == 0 && (v | 0) & 0xEE81 == 0 && (v | 0x0100) as u32 & 0x107E == v as u32 && (v | 0)
            as u32 & 0x107E == v as u32)) by (bit_vector);
    assert((b | 0x0100) & 0x0100 == 0x0100);
}

/// The main antenna connector is that of the port in use: the transmit port
/// while keyed, else the receive port. While an auxiliary input is in use
/// it is that of the transmit port, at most the third, except that newer
/// amplifier boards, other than on an Orion2, disconnect all three.
pub proof fn law_connector_follows_the_port(
    freq_hz: u32,
    a: AntennaState,
    disable_pa: bool,
    puresignal: bool,
)
    ensures
        ({
            let relay = alex0(freq_hz, a, disable_pa, puresignal) & 0x0700_0000;
            let port = if a.mox {
                a.tx_antenna
            } else {
                a.rx_antenna
            };
            let cut = port > 2 && a.new_pa_board && !a.is_orion2;
            let main = if port > 2 {
                a.tx_antenna
            } else {
                port
            };
            &&& relay == 0x0100_0000 <==> !cut && main == 0
            &&& relay == 0x0200_0000 <==> !cut && main == 1
            &&& relay == 0x0400_0000 <==> !cut && main >= 2
            &&& relay == 0 <==> cut
        }),
{
    law_alex0_fields(freq_hz, a, disable_pa, puresignal);
}

/// The auxiliary inputs are those of the port in use: 3 and 4 are the two
/// receive jacks, of which an Orion2 has only the first, and 5 is the
/// transverter. With any of them an Orion2 sets its master select bit, and
/// a board with the older amplifier the bypass relay. Besides, the word
/// holds the filters, the connector, the transmit relay and the feedback
/// coupler, and nothing else.
pub proof fn law_auxiliary_inputs_follow_the_port(
    freq_hz: u32,
    a: AntennaState,
    disable_pa: bool,
    puresignal: bool,
)
    ensures
        ({
            let w = alex0(freq_hz, a, disable_pa, puresignal);
            let port = if a.mox {
                a.tx_antenna
            } else {
                a.rx_antenna
            };
            &&& w & 0x0200 == 0x0200 <==> port == 3 || (port == 4 && a.is_orion2)
            &&& w & 0x0400 == 0x0400 <==> port == 4 && !a.is_orion2
            &&& w & 0x0100 == 0x0100 <==> port == 5
            &&& w & 0x4000 == 0x4000 <==> 3 <= port <= 5 && a.is_orion2
            &&& w & 0x0800 == 0x0800 <==> 3 <= port <= 5 && !a.is_orion2 && !a.new_pa_board
            &&& w & 0x0800_0000 == 0x0800_0000 <==> a.mox && !disable_pa
            &&& w & 0x0004_0000 == 0x0004_0000 <==> a.mox && puresignal
            &&& w & 0x100B_A081 == 0
        }),
{
    law_alex0_fields(freq_hz, a, disable_pa, puresignal);
    let h = hpf_bit(rx_filter_for(freq_hz));
    let l = lpf_bit(freq_hz);
    let c = connector_bit(main_connector(a));
    let x = alex_aux_bits(a);
    let t: u32 = if a.mox && !disable_pa {
        ALEX_TR_RELAY
    } else {
        0
    };
    let p: u32 = if a.mox && puresignal {
        ALEX_PS_BIT
    } else {
        0
    };
    lemma_field_masks();
    lemma_word_rest(h, l, c, x, t, p);
}

proof fn lemma_field_masks()
    by (bit_vector)
    ensures
        forall|v: u32|
            v == 0x1000 || v == 0x40 || v == 0x20 || v == 0x10 || v == 2 || v == 4 || v == 8
                ==> #[trigger] (v & 0x107E) == v,
        forall|v: u32|
            v == 0x2000_0000 || v == 0x4000_0000 || v == 0x8000_0000 || v == 0x10_0000 || v
                == 0x20_0000 || v == 0x40_0000 || v == 0x80_0000 ==> #[trigger] (v & 0xE0F0_0000)
                == v,
        forall|v: u32|
            v == 0 || v == 0x100_0000 || v == 0x200_0000 || v == 0x400_0000 ==> #[trigger] (v
                & 0x0700_0000) == v,
        forall|v: u32, r: u32|
            (v == 0x200 || v == 0x400 || v == 0x100) && (r == 0x4000 || r == 0x800 || r == 0)
                ==> #[trigger] (v | r) & 0x4F00 == (v | r) && ((v | r) & 0x0200 == 0x0200) == (v
                == 0x200) && ((v | r) & 0x0400 == 0x0400) == (v == 0x400) && ((v | r) & 0x0100
                == 0x0100) == (v == 0x100) && ((v | r) & 0x4000 == 0x4000) == (r == 0x4000) && ((v
                | r) & 0x0800 == 0x0800) == (r == 0x800),
        0u32 & 0x4F00 == 0,
        0u32 & 0x0100 == 0,
        0u32 & 0x0200 == 0,
        0u32 & 0x0400 == 0,
        0u32 & 0x0800 == 0,
        0u32 & 0x4000 == 0,
        0x0800_0000u32 & 0x0800_0000 == 0x0800_0000,
        0u32 & 0x0800_0000 == 0,
        0x0004_0000u32 & 0x0004_0000 == 0x0004_0000,
        0u32 & 0x0004_0000 == 0,
{
}

} // verus!
