//! The radio boards this library speaks to, and which receiver slots of
//! each are set aside for PureSignal feedback.
use vstd::prelude::*;

verus! {

/// Board families of the openHPSDR hardware line.
#[derive(Clone, Copy, Debug, PartialEq, Eq, Structural)]
pub enum Boards {
    Metis,
    Hermes,
    Hermes2,
    Angelia,
    Orion,
    Orion2,
    Saturn,
    HermesLite,
    HermesLite2,
    Ozy,
    Unknown,
}

/// Whether a board belongs to the HermesLite family, whose drive,
/// receive-gain and power-amplifier registers differ from the others.
pub open spec fn hermes_lite(board: Boards) -> bool {
    board == Boards::HermesLite || board == Boards::HermesLite2
}

pub fn is_hermes_lite(board: Boards) -> (b: bool)
    ensures
        b == hermes_lite(board),
{
    board == Boards::HermesLite || board == Boards::HermesLite2
}

/// Where the two PureSignal feedback streams sit among the receivers of a
/// board, and how many receivers are left to the user beside them.
#[derive(Clone, Copy, Debug, PartialEq, Eq, Structural)]
pub struct PsFeedback {
    pub rx_feedback_idx: u8,
    pub tx_feedback_idx: u8,
    /// Fixed per board on protocol 1; `None` on protocol 2, where the
    /// count depends on what the board reports at discovery.
    pub max_real_receivers: Option<u8>,
}

/// The feedback table: on protocol 1 the feedback streams take the last two
/// receiver slots of the board's fixed total, on protocol 2 the first two.
pub open spec fn ps_feedback(protocol: u8, board: Boards) -> Option<PsFeedback> {
    let slots = |usable: u8|
        Some(
            PsFeedback {
                rx_feedback_idx: usable,
                tx_feedback_idx: (usable + 1) as u8,
                max_real_receivers: Some(usable),
            },
        );
    if protocol == 1 {
        match board {
            Boards::Metis | Boards::HermesLite => slots(0),
            Boards::Hermes | Boards::Hermes2 | Boards::HermesLite2 => slots(2),
            Boards::Angelia | Boards::Orion | Boards::Orion2 => slots(3),
            Boards::Saturn | Boards::Ozy | Boards::Unknown => None,
        }
    } else if protocol == 2 {
        Some(PsFeedback { rx_feedback_idx: 0, tx_feedback_idx: 1, max_real_receivers: None })
    } else {
        None
    }
}

/// Looks up the feedback slots of a board.
pub fn ps_feedback_config(protocol: u8, board: Boards) -> (r: Option<PsFeedback>)
    ensures
        r == ps_feedback(protocol, board),
{
    if protocol == 1 {
        let usable: u8 = match board {
            Boards::Metis | Boards::HermesLite => 0,
            Boards::Hermes | Boards::Hermes2 | Boards::HermesLite2 => 2,
            Boards::Angelia | Boards::Orion | Boards::Orion2 => 3,
            Boards::Saturn | Boards::Ozy | Boards::Unknown => {
                return None;
            },
        };
        Some(
            PsFeedback {
                rx_feedback_idx: usable,
                tx_feedback_idx: usable + 1,
                max_real_receivers: Some(usable),
            },
        )
    } else if protocol == 2 {
        Some(PsFeedback { rx_feedback_idx: 0, tx_feedback_idx: 1, max_real_receivers: None })
    } else {
        None
    }
}

/// On protocol 1 the two feedback streams follow the user's receivers, and
/// together they fill the board: two slots on the smallest boards, four on
/// the middle ones and five on the largest; boards without feedback have
/// none. On protocol 2 the feedback streams come first on every board.
pub proof fn law_feedback_table(board: Boards)
    ensures
        ({
            let total = match ps_feedback(1, board) {
                Some(f) => f.tx_feedback_idx + 1,
                None => 0,
            };
            &&& total == 2 <==> board == Boards::Metis || board == Boards::HermesLite
            &&& total == 4 <==> board == Boards::Hermes || board == Boards::Hermes2 || board
                == Boards::HermesLite2
            &&& total == 5 <==> board == Boards::Angelia || board == Boards::Orion || board
                == Boards::Orion2
            &&& total == 0 <==> board == Boards::Saturn || board == Boards::Ozy || board
                == Boards::Unknown
        }),
        ps_feedback(1, board) matches Some(f) ==> f.max_real_receivers == Some(f.rx_feedback_idx)
            && f.tx_feedback_idx == f.rx_feedback_idx + 1,
        ps_feedback(2, board) matches Some(f) && f.rx_feedback_idx == 0 && f.tx_feedback_idx == 1
            && f.max_real_receivers is None,
{
}

/// There are feedback streams on protocols 1 and 2 only, and two boards of
/// the HermesLite family.
pub proof fn law_protocols_and_family(protocol: u8, board: Boards)
    ensures
        protocol != 1 && protocol != 2 ==> ps_feedback(protocol, board) is None,
        hermes_lite(board) <==> board == Boards::HermesLite || board == Boards::HermesLite2,
{
}

} // verus!
