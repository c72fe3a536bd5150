//! Relayer selection and fee policy.

use vstd::prelude::*;
use vstd::string::StringExecFns;

verus! {

/// Default relayer fee in basis points.
pub const DEFAULT_FEE_BPS: u16 = 30;

/// Largest acceptable fee in basis points.
pub const MAX_FEE_BPS: u16 = 500;

/// Amount assumed for a transfer, whose value the relayer cannot see.
pub const DEFAULT_TRANSFER_AMOUNT: u64 = 1_000_000_000;

/// Errors of relayer operations.
#[derive(Debug)]
pub enum RelayerError {
    NoRelayersAvailable,
    FeeTooHigh(u16, u16),
    NetworkError(String),
    InvalidResponse(String),
    TransactionRejected(String),
    Timeout,
    InvalidProof,
}

/// Status of a relay request.
#[derive(Debug, Clone)]
pub enum RelayStatus {
    Pending,
    Submitted { signature: String },
    Confirmed { signature: String, slot: u64 },
    Failed { reason: String },
}

/// Kind of relayed operation.
#[derive(Debug, Clone)]
pub enum OperationType {
    Transfer,
    UnshieldSol,
    UnshieldToken { mint: String },
}

/// Whether two operation kinds are the same (token unshields compare their mint).
pub open spec fn same_operation(a: OperationType, b: OperationType) -> bool {
    match (a, b) {
        (OperationType::Transfer, OperationType::Transfer) => true,
        (OperationType::UnshieldSol, OperationType::UnshieldSol) => true,
        (OperationType::UnshieldToken { mint: m1 }, OperationType::UnshieldToken { mint: m2 }) => m1@
            == m2@,
        _ => false,
    }
}

impl OperationType {
    /// Whether `self` and `other` are the same operation kind.
    pub fn matches_operation(&self, other: &OperationType) -> (r: bool)
        ensures
            r == same_operation(*self, *other),
    {
        match (self, other) {
            (OperationType::Transfer, OperationType::Transfer) => true,
            (OperationType::UnshieldSol, OperationType::UnshieldSol) => true,
            (OperationType::UnshieldToken { mint: m1 }, OperationType::UnshieldToken { mint: m2 }) => m1.eq(m2),
            _ => false,
        }
    }
}

/// Output of a relayed operation.
#[derive(Debug, Clone)]
pub enum RelayOutput {
    Commitment([u8; 32]),
    Unshield { recipient: String, amount: u64 },
}

/// A request to relay a private transaction.
#[derive(Debug, Clone)]
pub struct RelayRequest {
    pub operation: OperationType,
    pub nullifier: [u8; 32],
    pub output: RelayOutput,
    pub proof: Vec<u8>,
    pub merkle_root: [u8; 32],
    pub max_fee: u64,
}

/// A relayer's answer.
#[derive(Debug, Clone)]
pub struct RelayResponse {
    pub request_id: String,
    pub status: RelayStatus,
    pub fee: u64,
    pub estimated_confirmation_time: Option<u32>,
}

/// What is known of a relayer.
#[derive(Debug, Clone)]
pub struct RelayerInfo {
    pub id: String,
    pub endpoint: String,
    pub fee_bps: u16,
    pub min_amount: u64,
    pub supported_operations: Vec<OperationType>,
    pub is_online: bool,
    pub avg_confirmation_time: u32,
}

/// Whether a relayer lists `op` among its operations.
pub open spec fn supports(r: RelayerInfo, op: OperationType) -> bool {
    exists|k: int|
        0 <= k < r.supported_operations@.len() && same_operation(
            #[trigger] r.supported_operations@[k],
            op,
        )
}

/// Whether a relayer may carry `op` under a fee cap.
pub open spec fn eligible(r: RelayerInfo, op: OperationType, max_fee_bps: u16) -> bool {
    r.is_online && supports(r, op) && r.fee_bps <= max_fee_bps
}

/// Whether relayer `a` ranks strictly before relayer `b`: lower fee, then faster.
pub open spec fn ranks_before(a: RelayerInfo, b: RelayerInfo) -> bool {
    a.fee_bps < b.fee_bps || (a.fee_bps == b.fee_bps && a.avg_confirmation_time
        < b.avg_confirmation_time)
}

/// Whether entry `i` is the relayer chosen for `op`: eligible, ranked no later than
/// any eligible relayer, and strictly before every eligible one listed earlier.
pub open spec fn is_choice(rs: Seq<RelayerInfo>, i: int, op: OperationType, max_fee_bps: u16) -> bool {
    &&& 0 <= i < rs.len()
    &&& eligible(rs[i], op, max_fee_bps)
    &&& forall|j: int|
        0 <= j < rs.len() && eligible(#[trigger] rs[j], op, max_fee_bps) ==> !ranks_before(
            rs[j],
            rs[i],
        )
    &&& forall|j: int|
        0 <= j < i && eligible(#[trigger] rs[j], op, max_fee_bps) ==> ranks_before(rs[i], rs[j])
}

/// At most one entry is the chosen relayer.
pub proof fn lemma_choice_unique(rs: Seq<RelayerInfo>, i: int, j: int, op: OperationType, max_fee_bps: u16)
    requires
        is_choice(rs, i, op, max_fee_bps),
        is_choice(rs, j, op, max_fee_bps),
    ensures
        i == j,
{
    if j < i {
        assert(eligible(rs[j], op, max_fee_bps));
        assert(ranks_before(rs[i], rs[j]));
        assert(!ranks_before(rs[i], rs[j]));
    } else if i < j {
        assert(eligible(rs[i], op, max_fee_bps));
        assert(ranks_before(rs[j], rs[i]));
        assert(!ranks_before(rs[j], rs[i]));
    }
}

/// Network fee of an operation in lamports.
pub open spec fn network_fee(op: OperationType) -> u64 {
    match op {
        OperationType::UnshieldToken { .. } => 10_000,
        _ => 5_000,
    }
}

/// Relayer fee: `amount * fee_bps / 10000`, saturated at `u64::MAX`.
pub open spec fn relayer_fee(amount: u64, fee_bps: u16) -> int {
    let f = (amount as int * fee_bps as int) / 10000;
    if f > u64::MAX {
        u64::MAX as int
    } else {
        f
    }
}

/// Lowercase hexadecimal digit of a nibble.
pub open spec fn hex_digit(n: u8) -> char {
    if n < 10 {
        (n + 48) as char
    } else {
        (n + 87) as char
    }
}

/// Lowercase hexadecimal text of a byte string, two digits per byte.
pub open spec fn hex_text(b: Seq<u8>) -> Seq<char>
    decreases b.len(),
{
    if b.len() == 0 {
        Seq::empty()
    } else {
        seq![hex_digit(b[0] / 16), hex_digit(b[0] % 16)] + hex_text(b.drop_first())
    }
}

/// Relies on `hex::encode`: two lowercase hex digits per byte, in order.
#[verifier::external_body]
fn hex_encode(b: &[u8]) -> (r: String)
    ensures
        r@ == hex_text(b@),
{
    hex::encode(b)
}

/// Client-side view of the known relayers.
pub struct RelayerClient {
    relayers: Vec<RelayerInfo>,
    max_fee_bps: u16,
    timeout_secs: u32,
}

impl RelayerClient {
    pub closed spec fn relayers(&self) -> Seq<RelayerInfo> {
        self.relayers@
    }

    pub closed spec fn max_fee(&self) -> u16 {
        self.max_fee_bps
    }

    pub closed spec fn timeout(&self) -> u32 {
        self.timeout_secs
    }

    /// A client with no relayers, the default fee cap and a 60 s timeout.
    pub fn new() -> (r: RelayerClient)
        ensures
            r.relayers().len() == 0,
            r.max_fee() == MAX_FEE_BPS,
            r.timeout() == 60,
    {
        RelayerClient { relayers: Vec::new(), max_fee_bps: MAX_FEE_BPS, timeout_secs: 60 }
    }

    /// A client with no relayers and the given fee cap and timeout.
    pub fn with_settings(max_fee_bps: u16, timeout_secs: u32) -> (r: RelayerClient)
        ensures
            r.relayers().len() == 0,
            r.max_fee() == max_fee_bps,
            r.timeout() == timeout_secs,
    {
        RelayerClient { relayers: Vec::new(), max_fee_bps, timeout_secs }
    }

    /// Adds a relayer at the end of the list.
    pub fn add_relayer(&mut self, relayer: RelayerInfo)
        ensures
            final(self).relayers() == old(self).relayers().push(relayer),
            final(self).max_fee() == old(self).max_fee(),
            final(self).timeout() == old(self).timeout(),
    {
        self.relayers.push(relayer);
    }

    /// Adds the default relayer, listed offline until a health check says otherwise.
    pub fn add_default_relayers(&mut self)
        ensures
            final(self).relayers().len() == old(self).relayers().len() + 1,
            final(self).relayers().subrange(0, old(self).relayers().len() as int) == old(self).relayers(),
            ({
                let r = final(self).relayers().last();
                &&& r.id@ == "nyx-relayer-1"@
                &&& r.endpoint@ == "https://relayer1.nyx.network"@
                &&& r.fee_bps == DEFAULT_FEE_BPS
                &&& r.min_amount == 10_000
                &&& r.supported_operations@.len() == 2
                &&& r.supported_operations@[0] is Transfer
                &&& r.supported_operations@[1] is UnshieldSol
                &&& !r.is_online
                &&& r.avg_confirmation_time == 5
            }),
            final(self).max_fee() == old(self).max_fee(),
            final(self).timeout() == old(self).timeout(),
    {
        let ops: Vec<OperationType> = vec![OperationType::Transfer, OperationType::UnshieldSol];
        let info = RelayerInfo {
            id: String::from_str("nyx-relayer-1"),
            endpoint: String::from_str("https://relayer1.nyx.network"),
            fee_bps: DEFAULT_FEE_BPS,
            min_amount: 10_000,
            supported_operations: ops,
            is_online: false,
            avg_confirmation_time: 5,
        };
        self.relayers.push(info);
        assert(self.relayers@.subrange(0, old(self).relayers@.len() as int) =~= old(self).relayers@);
    }

    fn supports_operation(r: &RelayerInfo, op: &OperationType) -> (b: bool)
        ensures
            b == supports(*r, *op),
    {
        let mut k: usize = 0;
        while k < r.supported_operations.len()
            invariant
                k <= r.supported_operations@.len(),
                forall|a: int| 0 <= a < k ==> !same_operation(#[trigger] r.supported_operations@[a], *op),
            decreases r.supported_operations@.len() - k,
        {
            if r.supported_operations[k].matches_operation(op) {
                return true;
            }
            k = k + 1;
        }
        false
    }

    /// The relayer for `op`: online, supporting it, within the fee cap, with the
    /// lowest fee and then the fastest confirmation; the first such one on ties.
    pub fn select_relayer(&self, operation: &OperationType) -> (r: Result<&RelayerInfo, RelayerError>)
        ensures
            (exists|j: int| 0 <= j < self.relayers().len() && eligible(#[trigger] self.relayers()[j], *operation, self.max_fee()))
                <==> r is Ok,
            r is Err ==> r matches Err(RelayerError::NoRelayersAvailable),
            r matches Ok(info) ==> exists|i: int| is_choice(self.relayers(), i, *operation, self.max_fee()) && *info == self.relayers()[i],
    {
        let mut best: Option<usize> = None;
        let mut k: usize = 0;
        while k < self.relayers.len()
            invariant
                k <= self.relayers@.len(),
                best matches Some(i) ==> i < k && is_choice(self.relayers@.subrange(0, k as int), i as int, *operation, self.max_fee_bps),
                best is None ==> forall|j: int| 0 <= j < k ==> !eligible(#[trigger] self.relayers@[j], *operation, self.max_fee_bps),
            decreases self.relayers@.len() - k,
        {
            let r = &self.relayers[k];
            let ok = r.is_online && Self::supports_operation(r, operation) && r.fee_bps <= self.max_fee_bps;
            let ghost prev = self.relayers@.subrange(0, k as int);
            let ghost next = self.relayers@.subrange(0, k + 1);
            if ok {
                match best {
                    None => {
                        best = Some(k);
                    },
                    Some(i) => {
                        let b = &self.relayers[i];
                        if r.fee_bps < b.fee_bps || (r.fee_bps == b.fee_bps && r.avg_confirmation_time < b.avg_confirmation_time) {
                            best = Some(k);
                        }
                    },
                }
            }
            proof {
                assert forall|j: int| 0 <= j < k implies #[trigger] next[j] == prev[j] by {}
                assert(next[k as int] == self.relayers@[k as int]);
            }
            k = k + 1;
        }
        assert(self.relayers@.subrange(0, k as int) =~= self.relayers@);
        match best {
            Some(i) => {
                assert(is_choice(self.relayers(), i as int, *operation, self.max_fee()));
                assert(eligible(self.relayers()[i as int], *operation, self.max_fee()));
                Ok(&self.relayers[i])
            },
            None => Err(RelayerError::NoRelayersAvailable),
        }
    }

    /// Fees for relaying `op` of `amount`: the chosen relayer's fee and the network fee.
    pub fn estimate_fee(&self, operation: &OperationType, amount: u64) -> (r: Result<(u64, u64), RelayerError>)
        ensures
            (exists|j: int| 0 <= j < self.relayers().len() && eligible(#[trigger] self.relayers()[j], *operation, self.max_fee()))
                <==> r is Ok,
            r is Err ==> r matches Err(RelayerError::NoRelayersAvailable),
            r matches Ok(fees) ==> fees.1 == network_fee(*operation) && exists|i: int|
                is_choice(self.relayers(), i, *operation, self.max_fee()) && fees.0 == relayer_fee(
                    amount,
                    self.relayers()[i].fee_bps,
                ),
    {
        let relayer = match self.select_relayer(operation) {
            Ok(r) => r,
            Err(e) => {
                return Err(e);
            },
        };
        assert((amount as u128) * (relayer.fee_bps as u128) < 0x1_0000_0000_0000_0000_0000_0000) by (nonlinear_arith)
            requires amount < 0x1_0000_0000_0000_0000u128, relayer.fee_bps < 0x1_0000u128;
        let fee128 = (amount as u128) * (relayer.fee_bps as u128) / 10000;
        let relayer_fee: u64 = if fee128 > u64::MAX as u128 {
            u64::MAX
        } else {
            fee128 as u64
        };
        let network_fee: u64 = match operation {
            OperationType::Transfer => 5_000,
            OperationType::UnshieldSol => 5_000,
            OperationType::UnshieldToken { .. } => 10_000,
        };
        Ok((relayer_fee, network_fee))
    }

    /// The amount a request moves; transfers hide theirs and count as one SOL.
    pub fn get_amount(&self, request: &RelayRequest) -> (r: u64)
        ensures
            r == request_amount(*request),
    {
        match &request.output {
            RelayOutput::Commitment(_) => DEFAULT_TRANSFER_AMOUNT,
            RelayOutput::Unshield { amount, .. } => *amount,
        }
    }

    /// Checks a request against the fee policy and answers it as pending; the
    /// request id is `req_` followed by the hex of the nullifier's first 8 bytes.
    pub fn submit(&self, request: RelayRequest) -> (r: Result<RelayResponse, RelayerError>)
        ensures
            (exists|j: int| 0 <= j < self.relayers().len() && eligible(#[trigger] self.relayers()[j], request.operation, self.max_fee()))
                <== r is Ok,
            r matches Ok(resp) ==> resp.request_id@ == "req_"@ + hex_text(request.nullifier@.subrange(0, 8))
                && resp.status is Pending && resp.estimated_confirmation_time == Some(5u32)
                && resp.fee <= request.max_fee
                && exists|i: int| is_choice(self.relayers(), i, request.operation, self.max_fee())
                    && resp.fee == relayer_fee(request_amount(request), self.relayers()[i].fee_bps),
            r matches Err(RelayerError::FeeTooHigh(_, m)) ==> m == self.max_fee() && exists|i: int|
                is_choice(self.relayers(), i, request.operation, self.max_fee()) && relayer_fee(
                    request_amount(request),
                    self.relayers()[i].fee_bps,
                ) > request.max_fee,
            r is Err ==> (r matches Err(RelayerError::FeeTooHigh(_, _)) || r matches Err(RelayerError::NoRelayersAvailable)),
            !(exists|j: int| 0 <= j < self.relayers().len() && eligible(#[trigger] self.relayers()[j], request.operation, self.max_fee()))
                <==> r matches Err(RelayerError::NoRelayersAvailable),
            forall|i: int| #[trigger] is_choice(self.relayers(), i, request.operation, self.max_fee()) ==> (
                relayer_fee(request_amount(request), self.relayers()[i].fee_bps) <= request.max_fee <==> r is Ok),
            forall|i: int| #[trigger] is_choice(self.relayers(), i, request.operation, self.max_fee()) ==> (
                relayer_fee(request_amount(request), self.relayers()[i].fee_bps) > request.max_fee
                    ==> r matches Err(RelayerError::FeeTooHigh(_, _))),
    {
        proof {
            assert forall|i: int, j: int| #[trigger] is_choice(self.relayers(), i, request.operation, self.max_fee())
                && #[trigger] is_choice(self.relayers(), j, request.operation, self.max_fee()) implies i == j by {
                lemma_choice_unique(self.relayers(), i, j, request.operation, self.max_fee());
            }
        }
        let amount = self.get_amount(&request);
        let (relayer_fee, _network_fee) = match self.estimate_fee(&request.operation, amount) {
            Ok(f) => f,
            Err(e) => {
                return Err(e);
            },
        };
        if relayer_fee > request.max_fee {
            let bps: u16 = if amount == 0 {
                0
            } else {
                #[verifier::truncate]
                (((relayer_fee as u128) * 10000 / (amount as u128)) as u16)
            };
            return Err(RelayerError::FeeTooHigh(bps, self.max_fee_bps));
        }
        let mut request_id = String::from_str("req_");
        let hex = hex_encode(&request.nullifier[0..8]);
        request_id.append(hex.as_str());
        Ok(RelayResponse {
            request_id,
            status: RelayStatus::Pending,
            fee: relayer_fee,
            estimated_confirmation_time: Some(5),
        })
    }
}

/// The amount a request moves, as the fee policy counts it.
pub open spec fn request_amount(request: RelayRequest) -> u64 {
    match request.output {
        RelayOutput::Commitment(_) => DEFAULT_TRANSFER_AMOUNT,
        RelayOutput::Unshield { amount, .. } => amount,
    }
}

} // verus!
