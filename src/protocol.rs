//! Values exchanged between the UI layer and the core.
use vstd::prelude::*;
use crate::codec::push_char;
use crate::text::{BoundedText, CapacityError, byte_len};

verus! {

/// Who wrote a chat message.
#[derive(Debug, Clone, Copy, PartialEq, Eq, Structural)]
pub enum MessageRole {
    User,
    Assistant,
    System,
}

/// The decimal digits of `n`, most significant first.
pub open spec fn decimal(n: nat) -> Seq<char>
    decreases n,
{
    if n < 10 {
        seq![digit_char(n)]
    } else {
        decimal(n / 10).push(digit_char(n % 10))
    }
}

/// The digit character for `d < 10`.
pub open spec fn digit_char(d: nat) -> char {
    ((48 + d) as u8) as char
}

pub open spec fn pow10(k: nat) -> nat
    decreases k,
{
    if k == 0 {
        1
    } else {
        10 * pow10((k - 1) as nat)
    }
}

proof fn lemma_decimal_len(n: nat, k: nat)
    requires
        n < pow10(k),
        k >= 1,
    ensures
        1 <= decimal(n).len() <= k,
    decreases n,
{
    if n >= 10 {
        let p = pow10((k - 1) as nat);
        assert(k >= 2) by {
            if k == 1 {
                assert(pow10(0) == 1);
            }
        }
        assert(n / 10 < p) by (nonlinear_arith)
            requires
                n < 10 * p,
        ;
        lemma_decimal_len(n / 10, (k - 1) as nat);
    }
}

proof fn lemma_decimal_ascii(n: nat)
    ensures
        byte_len(decimal(n)) == decimal(n).len(),
    decreases n,
{
    reveal_with_fuel(vstd::utf8::encode_utf8, 2);
    if n >= 10 {
        lemma_decimal_ascii(n / 10);
        crate::text::lemma_encode_concat(decimal(n / 10), seq![digit_char(n % 10)]);
        assert(decimal(n) =~= decimal(n / 10) + seq![digit_char(n % 10)]);
    }
    let d = digit_char(n % 10);
    assert(seq![d].drop_first() =~= Seq::<char>::empty());
}

/// The decimal text of `n`.
pub fn decimal_text(n: u64) -> (r: String)
    ensures
        r@ == decimal(n as nat),
{
    let mut digits: Vec<char> = Vec::new();
    let mut m = n;
    while m >= 10
        invariant
            decimal(n as nat) == decimal(m as nat) + digits@.reverse(),
        decreases m,
    {
        let d = (m % 10) as u8;
        digits.push((48u8 + d) as char);
        proof {
            assert(decimal(m as nat) == decimal((m / 10) as nat).push(digit_char((m % 10) as nat)));
        }
        m = m / 10;
        proof {
            assert(digits@.reverse() =~= seq![digits@.last()] + digits@.drop_last().reverse());
        }
    }
    digits.push((48u8 + m as u8) as char);
    assert(digits@.reverse() =~= seq![digits@.last()] + digits@.drop_last().reverse());
    let mut r = String::new();
    let mut k: usize = digits.len();
    while k > 0
        invariant
            k <= digits@.len(),
            r@ == digits@.reverse().subrange(0, digits@.len() - k),
        decreases k,
    {
        k = k - 1;
        push_char(&mut r, digits[k]);
        assert(r@ =~= digits@.reverse().subrange(0, digits@.len() - k));
    }
    assert(digits@.reverse().subrange(0, digits@.len() as int) =~= digits@.reverse());
    r
}

/// A chat message as the UI shows it.
#[derive(Debug)]
pub struct ChatMessage {
    pub role: MessageRole,
    pub content: BoundedText<512>,
    pub timestamp: BoundedText<32>,
}

impl ChatMessage {
    /// A message written at `elapsed_secs` seconds of the device's clock; its
    /// timestamp is that number in decimal. Fails when `content` exceeds the
    /// content buffer.
    pub fn new(role: MessageRole, content: &str, elapsed_secs: u64) -> (r: Result<
        Self,
        CapacityError,
    >)
        ensures
            r is Ok <==> byte_len(content@) <= 512,
            r matches Ok(m) ==> m.role == role && m.content@ == content@ && m.timestamp@
                == decimal(elapsed_secs as nat),
    {
        let content = match BoundedText::<512>::from_str(content) {
            Ok(c) => c,
            Err(e) => {
                return Err(e);
            },
        };
        let secs = decimal_text(elapsed_secs);
        proof {
            reveal_with_fuel(pow10, 21);
            assert(pow10(20) == 100_000_000_000_000_000_000);
            lemma_decimal_len(elapsed_secs as nat, 20);
            lemma_decimal_ascii(elapsed_secs as nat);
        }
        let timestamp = match BoundedText::<32>::from_str(secs.as_str()) {
            Ok(t) => t,
            Err(e) => {
                return Err(e);
            },
        };
        Ok(ChatMessage { role, content, timestamp })
    }
}

/// A snapshot of the device's connection state.
#[derive(Debug)]
pub struct UiStatus {
    pub connected: bool,
    pub wifi_ssid: Option<BoundedText<32>>,
    pub signal_strength: Option<u8>,
    pub battery_level: Option<u8>,
    pub zeroclaw_connected: bool,
}

impl Default for UiStatus {
    /// Nothing connected, nothing known.
    fn default() -> (r: Self)
        ensures
            !r.connected,
            r.wifi_ssid is None,
            r.signal_strength is None,
            r.battery_level is None,
            !r.zeroclaw_connected,
    {
        UiStatus {
            connected: false,
            wifi_ssid: None,
            signal_strength: None,
            battery_level: None,
            zeroclaw_connected: false,
        }
    }
}

/// A request of the UI layer to the core.
#[derive(Debug)]
pub enum UiCommand {
    SendMessage { text: BoundedText<512> },
    GetStatus,
    ConnectWifi { ssid: BoundedText<32>, password: BoundedText<64> },
    Disconnect,
    ClearMessages,
}

/// The core's answer to a `UiCommand`.
#[derive(Debug)]
pub struct UiResponse {
    pub success: bool,
    pub messages: Option<Vec<ChatMessage>>,
    pub status: Option<UiStatus>,
    pub error: Option<BoundedText<128>>,
}

impl UiResponse {
    /// Success with nothing to report.
    pub fn ok() -> (r: Self)
        ensures
            r.success,
            r.messages is None,
            r.status is None,
            r.error is None,
    {
        UiResponse { success: true, messages: None, status: None, error: None }
    }

    /// Success carrying a status snapshot.
    pub fn with_status(status: UiStatus) -> (r: Self)
        ensures
            r.success,
            r.messages is None,
            r.status == Some(status),
            r.error is None,
    {
        UiResponse { success: true, messages: None, status: Some(status), error: None }
    }

    /// Success carrying messages.
    pub fn with_messages(messages: Vec<ChatMessage>) -> (r: Self)
        ensures
            r.success,
            r.messages == Some(messages),
            r.status is None,
            r.error is None,
    {
        UiResponse { success: true, messages: Some(messages), status: None, error: None }
    }

    /// Failure with an error text of at most 128 bytes.
    pub fn err(msg: &str) -> (r: Self)
        requires
            byte_len(msg@) <= 128,
        ensures
            !r.success,
            r.messages is None,
            r.status is None,
            r.error matches Some(e) && e@ == msg@,
    {
        let e = match BoundedText::<128>::from_str(msg) {
            Ok(e) => e,
            Err(_) => BoundedText::new(),
        };
        UiResponse { success: false, messages: None, status: None, error: Some(e) }
    }
}

} // verus!
