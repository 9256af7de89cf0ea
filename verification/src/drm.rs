//! Choosing the output of a DRM display: which connector to drive and
//! through which CRTC, decided from what the kernel reports about each.

use vstd::prelude::*;

verus! {

/// Why no DRM output could be set up.
#[derive(Debug, Clone, Copy, PartialEq, Eq, Structural)]
pub enum DrmError {
    /// The card reports no connector or no CRTC.
    NoConnectorsOrCrtcs,
    /// No connector is connected with a mode, or none has a CRTC to use.
    NoActiveOutput,
}

/// What the kernel reports of a connector at the first query.
#[derive(Debug, Clone, Copy, PartialEq, Eq, Structural)]
pub struct ConnectorReport {
    /// 1 when a display is connected.
    pub connection: u32,
    /// How many modes the connector offers.
    pub count_modes: u32,
}

/// Where the search for an output stands, which is also what to ask the
/// kernel next.
#[derive(Debug, Clone, Copy, PartialEq, Eq, Structural)]
pub enum DrmProbe {
    /// Query connector `i` (its index in the card's connector list).
    Query(usize),
    /// Fetch the modes and encoder of connector `i`, which is connected.
    FetchModes(usize),
    /// Ask encoder `encoder` of connector `i` for its CRTC.
    QueryEncoder(usize, u32),
    /// Drive connector `i` (with its first mode) through CRTC `crtc`.
    Chosen(usize, u32),
    /// There is no output to drive.
    Failed,
}

/// What the kernel answered to the last request; `None` where the request
/// failed.
#[derive(Debug, Clone, Copy, PartialEq, Eq, Structural)]
pub enum DrmReply {
    Connector(Option<ConnectorReport>),
    /// The encoder id the connector reports (0 for none).
    Modes(Option<u32>),
    /// The CRTC id the encoder reports (0 for none).
    Encoder(Option<u32>),
}

/// A card must report at least one connector and one CRTC.
pub fn check_resources(count_connectors: u32, count_crtcs: u32) -> (r: Result<(), DrmError>)
    ensures
        r is Ok <==> (count_connectors != 0 && count_crtcs != 0),
        r is Err ==> r == Err::<(), DrmError>(DrmError::NoConnectorsOrCrtcs),
{
    if count_connectors == 0 || count_crtcs == 0 {
        Err(DrmError::NoConnectorsOrCrtcs)
    } else {
        Ok(())
    }
}

/// The search at connector `i` of `n`: past the last one there is none.
pub open spec fn query_from(i: int, n: usize) -> DrmProbe {
    if i < n {
        DrmProbe::Query(i as usize)
    } else {
        DrmProbe::Failed
    }
}

/// The CRTC to drive connector `i` through: its encoder's CRTC where that
/// is known and not 0, else the card's first CRTC, if any; with none the
/// search fails.
pub open spec fn choose_spec(i: usize, encoder_crtc: Option<u32>, crtcs: Seq<u32>) -> DrmProbe {
    let crtc: u32 = match encoder_crtc {
        Some(c) if c != 0 => c,
        _ => if crtcs.len() > 0 {
            crtcs[0]
        } else {
            0
        },
    };
    if crtc == 0 {
        DrmProbe::Failed
    } else {
        DrmProbe::Chosen(i, crtc)
    }
}

/// The next state of the search after `reply`, for a card with `n`
/// connectors and the CRTCs `crtcs`: a connector that cannot be queried,
/// has no display or no mode, or whose modes cannot be fetched is passed
/// over; the first one whose modes are fetched is chosen, through the CRTC
/// of its encoder where one is reported. A reply that does not answer the
/// pending request changes nothing.
pub open spec fn advance_spec(state: DrmProbe, n: usize, crtcs: Seq<u32>, reply: DrmReply) -> DrmProbe {
    match (state, reply) {
        (DrmProbe::Query(i), DrmReply::Connector(report)) => match report {
            Some(rep) => if rep.connection != 1 || rep.count_modes == 0 {
                query_from(i + 1, n)
            } else {
                DrmProbe::FetchModes(i)
            },
            None => query_from(i + 1, n),
        },
        (DrmProbe::FetchModes(i), DrmReply::Modes(encoder)) => match encoder {
            Some(e) => if e != 0 {
                DrmProbe::QueryEncoder(i, e)
            } else {
                choose_spec(i, None, crtcs)
            },
            None => query_from(i + 1, n),
        },
        (DrmProbe::QueryEncoder(i, _), DrmReply::Encoder(crtc)) => choose_spec(i, crtc, crtcs),
        _ => state,
    }
}

impl DrmProbe {
    /// The search over `n` connectors starts at the first.
    pub fn start(n: usize) -> (r: DrmProbe)
        ensures
            r == query_from(0, n),
    {
        if n > 0 {
            DrmProbe::Query(0)
        } else {
            DrmProbe::Failed
        }
    }

    fn query_next(i: usize, n: usize) -> (r: DrmProbe)
        requires
            i < n,
        ensures
            r == query_from(i + 1, n),
    {
        if i + 1 < n {
            DrmProbe::Query(i + 1)
        } else {
            DrmProbe::Failed
        }
    }

    fn pick_crtc(i: usize, encoder_crtc: Option<u32>, crtcs: &Vec<u32>) -> (r: DrmProbe)
        ensures
            r == choose_spec(i, encoder_crtc, crtcs@),
    {
        let crtc: u32 = match encoder_crtc {
            Some(c) if c != 0 => c,
            _ => if crtcs.len() > 0 {
                crtcs[0]
            } else {
                0
            },
        };
        if crtc == 0 {
            DrmProbe::Failed
        } else {
            DrmProbe::Chosen(i, crtc)
        }
    }

    /// The state that follows `reply`.
    pub fn advance(self, n: usize, crtcs: &Vec<u32>, reply: DrmReply) -> (r: DrmProbe)
        requires
            self matches DrmProbe::Query(i) ==> i < n,
            self matches DrmProbe::FetchModes(i) ==> i < n,
        ensures
            r == advance_spec(self, n, crtcs@, reply),
    {
        match (self, reply) {
            (DrmProbe::Query(i), DrmReply::Connector(report)) => match report {
                Some(rep) => if rep.connection != 1 || rep.count_modes == 0 {
                    Self::query_next(i, n)
                } else {
                    DrmProbe::FetchModes(i)
                },
                None => Self::query_next(i, n),
            },
            (DrmProbe::FetchModes(i), DrmReply::Modes(encoder)) => match encoder {
                Some(e) => if e != 0 {
                    DrmProbe::QueryEncoder(i, e)
                } else {
                    Self::pick_crtc(i, None, crtcs)
                },
                None => Self::query_next(i, n),
            },
            (DrmProbe::QueryEncoder(i, _), DrmReply::Encoder(crtc)) => Self::pick_crtc(i, crtc, crtcs),
            _ => self,
        }
    }

    /// The outcome of a finished search: the connector index and CRTC to
    /// drive, or the error that there is no active output.
    pub fn outcome(self) -> (r: Option<Result<(usize, u32), DrmError>>)
        ensures
            r == match self {
                DrmProbe::Chosen(i, c) => Some(Ok::<(usize, u32), DrmError>((i, c))),
                DrmProbe::Failed => Some(Err::<(usize, u32), DrmError>(DrmError::NoActiveOutput)),
                _ => None::<Result<(usize, u32), DrmError>>,
            },
    {
        match self {
            DrmProbe::Chosen(i, c) => Some(Ok((i, c))),
            DrmProbe::Failed => Some(Err(DrmError::NoActiveOutput)),
            _ => None,
        }
    }
}

/// The CRTC that a connector is driven through: where its encoder reports
/// a CRTC other than 0, that CRTC; where the encoder reports none or 0, or
/// the connector has no encoder, the card's first CRTC; where that is
/// missing or 0 too, there is no output.
pub proof fn lemma_encoder_crtc_is_driven(i: usize, encoder: u32, n: usize, crtcs: Seq<u32>, c: u32)
    ensures
        c != 0 ==> advance_spec(DrmProbe::QueryEncoder(i, encoder), n, crtcs, DrmReply::Encoder(Some(c)))
            == DrmProbe::Chosen(i, c),
        ({
            let fallback = if crtcs.len() > 0 && crtcs[0] != 0 {
                DrmProbe::Chosen(i, crtcs[0])
            } else {
                DrmProbe::Failed
            };
            &&& advance_spec(DrmProbe::QueryEncoder(i, encoder), n, crtcs, DrmReply::Encoder(Some(0)))
                == fallback
            &&& advance_spec(DrmProbe::QueryEncoder(i, encoder), n, crtcs, DrmReply::Encoder(None))
                == fallback
            &&& advance_spec(DrmProbe::FetchModes(i), n, crtcs, DrmReply::Modes(Some(0))) == fallback
        }),
{
}

/// Every step of the search moves forward: to a later connector, further
/// along with the same connector, or to an end; so a search over `n`
/// connectors ends.
pub open spec fn probe_progress(state: DrmProbe, n: usize) -> int {
    match state {
        DrmProbe::Query(i) => 3 * (n - i),
        DrmProbe::FetchModes(i) => 3 * (n - i) - 1,
        DrmProbe::QueryEncoder(i, _) => 3 * (n - i) - 2,
        _ => 0,
    }
}

/// Each reply that answers the pending request strictly lowers the
/// progress measure, and pending states keep their connector index below
/// `n`.
pub proof fn lemma_probe_progress(state: DrmProbe, n: usize, crtcs: Seq<u32>, reply: DrmReply)
    requires
        state matches DrmProbe::Query(i) ==> i < n,
        state matches DrmProbe::FetchModes(i) ==> i < n,
        state matches DrmProbe::QueryEncoder(i, _) ==> i < n,
        match (state, reply) {
            (DrmProbe::Query(_), DrmReply::Connector(_)) => true,
            (DrmProbe::FetchModes(_), DrmReply::Modes(_)) => true,
            (DrmProbe::QueryEncoder(_, _), DrmReply::Encoder(_)) => true,
            _ => false,
        },
    ensures
        0 <= probe_progress(advance_spec(state, n, crtcs, reply), n) < probe_progress(state, n),
        advance_spec(state, n, crtcs, reply) matches DrmProbe::Query(i) ==> i < n,
        advance_spec(state, n, crtcs, reply) matches DrmProbe::FetchModes(i) ==> i < n,
        advance_spec(state, n, crtcs, reply) matches DrmProbe::QueryEncoder(i, _) ==> i < n,
{
}

} // verus!
