//! The decisions of the signature-checking request future, as a state machine.
//!
//! The future first reads the signature header, then collects the request body
//! frame by frame, and at the end of the body either forwards the request, body
//! unchanged, to the inner service or refuses it. Polling the body and the inner
//! service is the caller's work; this machine decides what follows each event.
use vstd::prelude::*;
use super::signature::{
    extract_signature, header_view, hmac_sha256, hmac_sha256_matches, signature_from_header,
    Rejection,
};

verus! {

/// Where the future stands.
pub enum State {
    /// The signature header has not been read yet.
    ExtractSignature,
    /// The signature is known; the body is being collected.
    ExtractBody { signature: Vec<u8> },
    /// The request went to the inner service, whose response is awaited.
    Inner,
}

impl State {
    /// The state in which every request starts.
    pub fn new() -> (s: Self)
        ensures
            s is ExtractSignature,
    {
        State::ExtractSignature
    }
}

/// The abstract state: `None` before the header is read, then the signature bytes.
pub enum StateView {
    ExtractSignature,
    ExtractBody { signature: Seq<u8> },
    Inner,
}

impl View for State {
    type V = StateView;

    open spec fn view(&self) -> StateView {
        match self {
            State::ExtractSignature => StateView::ExtractSignature,
            State::ExtractBody { signature } => StateView::ExtractBody { signature: signature@ },
            State::Inner => StateView::Inner,
        }
    }
}

/// What the caller does next.
pub enum Step {
    /// Wake the task and poll again.
    Rewake,
    /// Answer `401 Unauthorized`; the request goes no further.
    Reject(Rejection),
    /// Send the request on to the inner service with this body.
    Forward(Vec<u8>),
}

/// The signature check of one request.
pub struct SignatureValidation {
    secret: Vec<u8>,
    buffer: Vec<u8>,
    state: State,
}

impl SignatureValidation {
    /// The webhook secret the body is signed with.
    pub closed spec fn secret(&self) -> Seq<u8> {
        self.secret@
    }

    /// The body collected so far.
    pub closed spec fn buffer(&self) -> Seq<u8> {
        self.buffer@
    }

    /// The current state.
    pub closed spec fn current(&self) -> StateView {
        self.state@
    }

    /// A check of a new request under `secret`; `capacity` is the expected body size.
    pub fn new(secret: Vec<u8>, capacity: usize) -> (v: Self)
        ensures
            v.secret() == secret@,
            v.buffer() == Seq::<u8>::empty(),
            v.current() == StateView::ExtractSignature,
    {
        SignatureValidation { secret, buffer: Vec::with_capacity(capacity), state: State::new() }
    }

    /// The current state.
    pub fn state(&self) -> (s: &State)
        ensures
            s@ == self.current(),
    {
        &self.state
    }

    /// Reads the signature out of the `X-Hub-Signature-256` header value.
    pub fn on_signature_header(&mut self, header: Option<&[u8]>) -> (step: Step)
        requires
            old(self).current() == StateView::ExtractSignature,
        ensures
            final(self).secret() == old(self).secret(),
            final(self).buffer() == old(self).buffer(),
            match signature_from_header(header_view(header)) {
                Err(e) => step == Step::Reject(e) && final(self).current()
                    == StateView::ExtractSignature,
                Ok(signature) => step is Rewake && final(self).current() == (StateView::ExtractBody {
                    signature,
                }),
            },
    {
        match extract_signature(header) {
            Err(e) => Step::Reject(e),
            Ok(signature) => {
                self.state = State::ExtractBody { signature };
                Step::Rewake
            },
        }
    }

    /// Takes in one polled body frame: its data, or `None` for a frame that carries
    /// none (trailers, or a frame that failed).
    pub fn on_body_frame(&mut self, data: Option<&[u8]>) -> (step: Step)
        requires
            old(self).current() is ExtractBody,
        ensures
            step is Rewake,
            final(self).secret() == old(self).secret(),
            final(self).current() == old(self).current(),
            final(self).buffer() == match data {
                Some(d) => old(self).buffer() + d@,
                None => old(self).buffer(),
            },
    {
        if let Some(d) = data {
            append_bytes(&mut self.buffer, d);
        }
        Step::Rewake
    }

    /// The body has ended: forwards it if the signature is its HMAC under the secret.
    pub fn on_body_end(&mut self) -> (step: Step)
        requires
            old(self).current() is ExtractBody,
        ensures
            final(self).secret() == old(self).secret(),
            ({
                let signature = old(self).current()->ExtractBody_signature;
                if signature == hmac_sha256(old(self).secret(), old(self).buffer()) {
                    &&& step matches Step::Forward(body) && body@ == old(self).buffer()
                    &&& final(self).buffer() == Seq::<u8>::empty()
                    &&& final(self).current() == StateView::Inner
                } else {
                    &&& step == Step::Reject(Rejection::InvalidSignature)
                    &&& final(self).buffer() == old(self).buffer()
                    &&& final(self).current() == old(self).current()
                }
            }),
    {
        let matches = match &self.state {
            State::ExtractBody { signature } => hmac_sha256_matches(
                self.secret.as_slice(),
                self.buffer.as_slice(),
                signature.as_slice(),
            ),
            _ => false,
        };
        if matches {
            let mut body: Vec<u8> = Vec::new();
            std::mem::swap(&mut body, &mut self.buffer);
            self.state = State::Inner;
            Step::Forward(body)
        } else {
            Step::Reject(Rejection::InvalidSignature)
        }
    }
}

/// Appends `data` to `buffer`.
fn append_bytes(buffer: &mut Vec<u8>, data: &[u8])
    ensures
        final(buffer)@ == old(buffer)@ + data@,
{
    let n = data.len();
    let mut i: usize = 0;
    while i < n
        invariant
            n == data@.len(),
            i <= n,
            buffer@ == old(buffer)@ + data@.take(i as int),
        decreases n - i,
    {
        buffer.push(data[i]);
        proof {
            assert(data@.take(i + 1) =~= data@.take(i as int).push(data@[i as int]));
        }
        i = i + 1;
    }
    proof {
        assert(data@.take(n as int) =~= data@);
    }
}

/// The concatenation of body frames.
pub open spec fn concat_frames(frames: Seq<Seq<u8>>) -> Seq<u8>
    decreases frames.len(),
{
    if frames.len() == 0 {
        Seq::empty()
    } else {
        concat_frames(frames.drop_last()) + frames.last()
    }
}

/// The views of the frames of a body.
pub open spec fn frame_views(frames: Seq<Vec<u8>>) -> Seq<Seq<u8>> {
    frames.map_values(|f: Vec<u8>| f@)
}

/// What the middleware does with a request: the body it hands on, or why it refuses.
pub open spec fn request_verdict(secret: Seq<u8>, header: Option<Seq<u8>>, body: Seq<u8>) -> Result<
    Seq<u8>,
    Rejection,
> {
    match signature_from_header(header) {
        Err(e) => Err(e),
        Ok(signature) => if signature == hmac_sha256(secret, body) {
            Ok(body)
        } else {
            Err(Rejection::InvalidSignature)
        },
    }
}

/// A request reaches the inner service exactly when its header carries the
/// HMAC-SHA256 of its body under the secret, and it reaches it with that body.
pub proof fn lemma_forwarded_iff_signed(secret: Seq<u8>, header: Option<Seq<u8>>, body: Seq<u8>)
    ensures
        request_verdict(secret, header, body) is Ok <==> signature_from_header(header) == Ok::<
            Seq<u8>,
            Rejection,
        >(hmac_sha256(secret, body)),
        request_verdict(secret, header, body) matches Ok(forwarded) ==> forwarded == body,
{
}

/// Runs the check of one request whose body arrives as `frames`: the request is
/// forwarded, body unchanged, exactly when the header is well formed and holds the
/// HMAC-SHA256 of the whole body under `secret`.
pub fn validate_request(secret: &[u8], header: Option<&[u8]>, frames: &Vec<Vec<u8>>) -> (r: Result<
    Vec<u8>,
    Rejection,
>)
    ensures
        match r {
            Ok(body) => request_verdict(secret@, header_view(header), concat_frames(
                frame_views(frames@),
            )) == Ok::<Seq<u8>, Rejection>(body@),
            Err(e) => request_verdict(secret@, header_view(header), concat_frames(
                frame_views(frames@),
            )) == Err::<Seq<u8>, Rejection>(e),
        },
{
    let mut key: Vec<u8> = Vec::new();
    append_bytes(&mut key, secret);
    proof {
        assert(key@ =~= secret@);
    }
    let mut check = SignatureValidation::new(key, 0);
    match check.on_signature_header(header) {
        Step::Reject(e) => {
            return Err(e);
        },
        _ => {},
    }
    let ghost signature = check.current()->ExtractBody_signature;
    let ghost views = frame_views(frames@);
    let n = frames.len();
    let mut i: usize = 0;
    proof {
        assert(views.take(0) =~= Seq::<Seq<u8>>::empty());
    }
    while i < n
        invariant
            n == frames@.len(),
            i <= n,
            views == frame_views(frames@),
            check.secret() == secret@,
            check.current() == (StateView::ExtractBody { signature }),
            signature_from_header(header_view(header)) == Ok::<Seq<u8>, Rejection>(signature),
            check.buffer() == concat_frames(views.take(i as int)),
        decreases n - i,
    {
        check.on_body_frame(Some(frames[i].as_slice()));
        proof {
            assert(views.take(i + 1).drop_last() =~= views.take(i as int));
            assert(views[i as int] == frames@[i as int]@);
        }
        i = i + 1;
    }
    proof {
        assert(views.take(n as int) =~= views);
    }
    match check.on_body_end() {
        Step::Forward(body) => Ok(body),
        _ => Err(Rejection::InvalidSignature),
    }
}

} // verus!
