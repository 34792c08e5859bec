//! Where the passphrase comes from: the environment, the keyring, or the user.
//!
//! The first time, a new passphrase is drawn and left with the keyring. Only when the keyring
//! does not take it is the user asked for one.

use vstd::prelude::*;

use crate::crypto::{encode_hex, fill_random, hex_digit, hex_text};
use crate::error::{ErrorView, SessionError};
use crate::outside::{answers, OutputView, ProgramOutput, Reply, ReplyView, Request, RequestView};
use vstd::utf8::{
    decode_utf8, encode_utf8, encode_utf8_decode_utf8, encode_utf8_valid_utf8, valid_utf8,
};

verus! {

/// The environment variable that overrides every other source.
pub const PASSPHRASE_VARIABLE: &'static str = "HYPRSESSION_PASSPHRASE";

/// The attribute under which the keyring keeps the passphrase.
pub const SECRET_ATTRIBUTE: &'static str = "hyprsession";

/// The value of that attribute.
pub const SECRET_VALUE: &'static str = "passphrase";

/// What the user is asked for a passphrase with.
pub const PASSPHRASE_PROMPT: &'static str = "Hyprsession passphrase: ";

/// What is reported to have failed when the keyring does not take a new passphrase.
pub const CREATION: &'static str = "create passphrase in GNOME Keyring automatically";

/// The number of random bytes in a new passphrase.
pub const PASSPHRASE_LENGTH: usize = 32;

/// Calls `String::from_utf8`: it succeeds on exactly the bytes that are valid UTF-8, and gives
/// the text that they encode.
#[verifier::external_body]
fn utf8_text(bytes: Vec<u8>) -> (r: Option<String>)
    ensures
        r is Some <==> valid_utf8(bytes@),
        r matches Some(text) ==> text@ == decode_utf8(bytes@),
{
    match String::from_utf8(bytes) {
        Ok(text) => Some(text),
        Err(_) => None,
    }
}

/// Whether a character ends a line.
pub open spec fn ends_line(c: char) -> bool {
    c == '\n' || c == '\r'
}

/// `text` without the characters at its end that end a line.
pub open spec fn without_line_end(text: Seq<char>) -> Seq<char>
    decreases text.len(),
{
    if text.len() > 0 && ends_line(text.last()) {
        without_line_end(text.drop_last())
    } else {
        text
    }
}

/// The passphrase in what the keyring answered, if there is one.
pub open spec fn secret_in(output: Option<OutputView>) -> Option<Seq<char>> {
    match output {
        Some(output) => {
            let secret = without_line_end(decode_utf8(output.stdout));
            if output.success && valid_utf8(output.stdout) && secret.len() > 0 {
                Some(secret)
            } else {
                None
            }
        },
        None => None,
    }
}

/// Only ends of lines are cut off, and all of them: what is left is where the text begins, what
/// is cut off ends lines, and what is left does not end with an end of line.
pub proof fn only_line_ends_are_cut_off(text: Seq<char>)
    ensures
        without_line_end(text).len() <= text.len(),
        without_line_end(text) == text.take(without_line_end(text).len() as int),
        forall|i: int|
            without_line_end(text).len() <= i < text.len() ==> ends_line(#[trigger] text[i]),
        without_line_end(text).len() > 0 ==> !ends_line(without_line_end(text).last()),
    decreases text.len(),
{
    if text.len() > 0 && ends_line(text.last()) {
        only_line_ends_are_cut_off(text.drop_last());
        assert forall|i: int| without_line_end(text).len() <= i < text.len() implies ends_line(
            #[trigger] text[i],
        ) by {
            if i < text.len() - 1 {
                assert(text[i] == text.drop_last()[i]);
            }
        }
    }
}

/// `text` without the ends of lines at its end.
fn trim_line_end(text: String) -> (r: String)
    ensures
        r@ == without_line_end(text@),
{
    let whole = text.as_str();
    let mut end: usize = whole.unicode_len();
    assert(text@.take(end as int) =~= text@);
    while end > 0 && (whole.get_char(end - 1) == '\n' || whole.get_char(end - 1) == '\r')
        invariant
            end <= text@.len(),
            whole@ == text@,
            without_line_end(text@.take(end as int)) == without_line_end(text@),
        decreases end,
    {
        assert(text@.take(end as int).drop_last() =~= text@.take(end - 1));
        end = end - 1;
    }
    assert(text@.subrange(0, end as int) =~= text@.take(end as int));
    whole.substring_char(0, end).to_owned()
}

/// The passphrase in what the keyring answered, if there is one.
pub fn fetch_passphrase_from_keyring(output: Option<ProgramOutput>) -> (r: Option<String>)
    ensures
        match r {
            Some(secret) => secret_in(output_view(output)) == Some(secret@),
            None => secret_in(output_view(output)) is None,
        },
{
    match output {
        Some(output) => {
            if !output.success {
                return None;
            }
            match utf8_text(output.stdout) {
                Some(text) => {
                    let secret = trim_line_end(text);
                    if secret.as_str().unicode_len() == 0 {
                        None
                    } else {
                        Some(secret)
                    }
                },
                None => None,
            }
        },
        None => None,
    }
}

/// What the keyring answered, by its view.
pub open spec fn output_view(output: Option<ProgramOutput>) -> Option<OutputView> {
    match output {
        Some(output) => Some(output@),
        None => None,
    }
}

/// A new random passphrase, if the operating system has random bytes to give: hexadecimal text.
/// Which bytes come, and whether any do, is left to chance and to the operating system;
/// [`drawn_passphrase`] says what is made of either outcome.
pub fn fresh_passphrase() -> (r: Option<String>)
    ensures
        r matches Some(text) ==> exists|bytes: Seq<u8>|
            text@ == #[trigger] hex_text(bytes) && bytes.len() == PASSPHRASE_LENGTH,
{
    let mut drawn: Vec<u8> = vec![0u8; PASSPHRASE_LENGTH];
    let filled = fill_random(&mut drawn);
    drawn_passphrase(filled, &drawn)
}

/// The passphrase that a draw of random bytes gives: their hexadecimal text, if the draw
/// succeeded and they are as many as a passphrase is made of.
pub fn drawn_passphrase(filled: bool, drawn: &Vec<u8>) -> (r: Option<String>)
    ensures
        match r {
            Some(text) => filled && drawn@.len() == PASSPHRASE_LENGTH && text@ == hex_text(drawn@),
            None => !filled || drawn@.len() != PASSPHRASE_LENGTH,
        },
{
    if filled && drawn.len() == PASSPHRASE_LENGTH {
        Some(encode_hex(drawn.as_slice()))
    } else {
        None
    }
}

/// A passphrase that was drawn is found again: whatever bytes it was made of, when the keyring
/// prints it, with any ends of lines behind it, it is read as it was.
pub proof fn drawn_passphrase_is_found_again(bytes: Seq<u8>, line_ends: Seq<char>)
    requires
        bytes.len() > 0,
        forall|i: int| 0 <= i < line_ends.len() ==> ends_line(#[trigger] line_ends[i]),
    ensures
        secret_in(
            Some(
                OutputView {
                    success: true,
                    stdout: encode_utf8(hex_text(bytes) + line_ends),
                },
            ),
        ) == Some(hex_text(bytes)),
    decreases line_ends.len(),
{
    let text = hex_text(bytes);
    encode_utf8_valid_utf8(text + line_ends);
    encode_utf8_decode_utf8(text + line_ends);
    if line_ends.len() == 0 {
        assert(text + line_ends =~= text);
        let low = bytes.last() as int % 16;
        assert((text.len() - 1) / 2 == bytes.len() - 1);
        assert((text.len() - 1) % 2 == 1);
        assert(text.last() == hex_digit(low));
        assert(0 <= low < 16);
        assert(!ends_line(text.last()));
    } else {
        drawn_passphrase_is_found_again(bytes, line_ends.drop_last());
        encode_utf8_valid_utf8(text + line_ends.drop_last());
        encode_utf8_decode_utf8(text + line_ends.drop_last());
        assert((text + line_ends).drop_last() =~= text + line_ends.drop_last());
        assert((text + line_ends).last() == line_ends[line_ends.len() - 1]);
    }
}

/// How far the search for a passphrase has come. Each state names what is awaited.
pub enum PassphraseState {
    ReadingVariable,
    LookingUp,
    Drawing,
    Storing { secret: String },
    Reporting { error: SessionError },
    Prompting,
    Obtained(String),
    Failed(SessionError),
}

/// A [`PassphraseState`] by the views of what it holds.
pub enum PassphraseView {
    ReadingVariable,
    LookingUp,
    Drawing,
    Storing { secret: Seq<char> },
    Reporting { error: ErrorView },
    Prompting,
    Obtained(Seq<char>),
    Failed(ErrorView),
}

impl View for PassphraseState {
    type V = PassphraseView;

    open spec fn view(&self) -> PassphraseView {
        match *self {
            PassphraseState::ReadingVariable => PassphraseView::ReadingVariable,
            PassphraseState::LookingUp => PassphraseView::LookingUp,
            PassphraseState::Drawing => PassphraseView::Drawing,
            PassphraseState::Storing { secret } => PassphraseView::Storing { secret: secret@ },
            PassphraseState::Reporting { error } => PassphraseView::Reporting { error: error@ },
            PassphraseState::Prompting => PassphraseView::Prompting,
            PassphraseState::Obtained(secret) => PassphraseView::Obtained(secret@),
            PassphraseState::Failed(e) => PassphraseView::Failed(e@),
        }
    }
}

/// What the search for a passphrase waits for.
pub open spec fn passphrase_asks(state: PassphraseView) -> RequestView {
    match state {
        PassphraseView::ReadingVariable => RequestView::ReadVariable(PASSPHRASE_VARIABLE@),
        PassphraseView::LookingUp => RequestView::LookUpSecret(SECRET_ATTRIBUTE@, SECRET_VALUE@),
        PassphraseView::Drawing => RequestView::DrawPassphrase,
        PassphraseView::Storing { secret } => RequestView::StoreSecret(
            SECRET_ATTRIBUTE@,
            SECRET_VALUE@,
            secret,
        ),
        PassphraseView::Reporting { error } => RequestView::Report(CREATION@, error),
        PassphraseView::Prompting => RequestView::Prompt(PASSPHRASE_PROMPT@),
        PassphraseView::Obtained(_) => RequestView::Nothing,
        PassphraseView::Failed(_) => RequestView::Nothing,
    }
}

/// The search for a passphrase after a reply.
pub open spec fn passphrase_after(state: PassphraseView, reply: ReplyView) -> PassphraseView {
    match (state, reply) {
        (PassphraseView::ReadingVariable, ReplyView::Variable(value)) => match value {
            Some(secret) => PassphraseView::Obtained(secret),
            None => PassphraseView::LookingUp,
        },
        (PassphraseView::LookingUp, ReplyView::SecretLookedUp(output)) => match secret_in(output) {
            Some(secret) => PassphraseView::Obtained(secret),
            None => PassphraseView::Drawing,
        },
        (PassphraseView::Drawing, ReplyView::Drawn(secret)) => PassphraseView::Storing { secret },
        (PassphraseView::Storing { secret }, ReplyView::Done(outcome)) => match outcome {
            Ok(_) => PassphraseView::Obtained(secret),
            Err(e) => PassphraseView::Reporting { error: ErrorView::Io(e) },
        },
        (PassphraseView::Reporting { .. }, ReplyView::Told) => PassphraseView::Prompting,
        (PassphraseView::Prompting, ReplyView::Prompted(outcome)) => match outcome {
            Ok(secret) => PassphraseView::Obtained(secret),
            Err(e) => PassphraseView::Failed(ErrorView::Io(e)),
        },
        _ => state,
    }
}

/// The search for a passphrase from its first state once all of `replies` have come.
pub open spec fn passphrase_run(replies: Seq<ReplyView>) -> PassphraseView
    decreases replies.len(),
{
    if replies.len() == 0 {
        PassphraseView::ReadingVariable
    } else {
        passphrase_after(passphrase_run(replies.drop_last()), replies.last())
    }
}

/// Whether the reply at `k` told that the keyring did not take a new passphrase.
pub open spec fn keyring_refused_at(replies: Seq<ReplyView>, k: int) -> bool {
    &&& 0 <= k < replies.len()
    &&& passphrase_run(replies.take(k)) is Storing
    &&& replies[k] matches ReplyView::Done(Err(_))
}

/// The user is only asked when the keyring is of no use: whatever the replies, before the user is
/// asked, the keyring had been handed a new passphrase and had not taken it.
pub proof fn prompts_only_without_keyring(replies: Seq<ReplyView>)
    ensures
        passphrase_asks(passphrase_run(replies)) is Prompt ==> exists|k: int| #[trigger]
            keyring_refused_at(replies, k),
{
    let k = lemma_refused(replies);
    if passphrase_run(replies) is Prompting {
        assert(keyring_refused_at(replies, k));
    }
}

proof fn lemma_refused(replies: Seq<ReplyView>) -> (k: int)
    ensures
        passphrase_run(replies) is Reporting || passphrase_run(replies) is Prompting
            ==> keyring_refused_at(replies, k),
    decreases replies.len(),
{
    if replies.len() == 0 {
        0
    } else {
        let earlier = replies.drop_last();
        let last = replies.len() - 1;
        let k = lemma_refused(earlier);
        assert(replies.take(last) =~= earlier);
        if 0 <= k < last {
            assert(earlier.take(k) =~= replies.take(k));
        }
        if passphrase_run(earlier) is Storing {
            last
        } else {
            k
        }
    }
}

/// A passphrase that the keyring took is obtained without a question the next time: when the
/// variable is not set, the answer of the keyring is all that is needed.
pub proof fn kept_passphrase_is_reused(bytes: Seq<u8>, line_ends: Seq<char>)
    requires
        bytes.len() > 0,
        forall|i: int| 0 <= i < line_ends.len() ==> ends_line(#[trigger] line_ends[i]),
    ensures
        passphrase_after(
            PassphraseView::Storing { secret: hex_text(bytes) },
            ReplyView::Done(Ok(())),
        ) == PassphraseView::Obtained(hex_text(bytes)),
        passphrase_run(
            seq![
                ReplyView::Variable(None),
                ReplyView::SecretLookedUp(
                    Some(
                        OutputView {
                            success: true,
                            stdout: encode_utf8(hex_text(bytes) + line_ends),
                        },
                    ),
                ),
            ],
        ) == PassphraseView::Obtained(hex_text(bytes)),
{
    drawn_passphrase_is_found_again(bytes, line_ends);
    let first = ReplyView::Variable(None);
    let second = ReplyView::SecretLookedUp(
        Some(OutputView { success: true, stdout: encode_utf8(hex_text(bytes) + line_ends) }),
    );
    assert(seq![first, second].drop_last() =~= seq![first]);
    assert(seq![first].drop_last() =~= Seq::empty());
    reveal_with_fuel(passphrase_run, 3);
}

proof fn lemma_one_more(replies: Seq<ReplyView>, reply: ReplyView)
    ensures
        passphrase_run(replies.push(reply)) == passphrase_after(passphrase_run(replies), reply),
{
    assert(replies.push(reply).drop_last() =~= replies);
}

/// The search moves on exactly when what it asked for is answered.
pub proof fn search_moves_on_with_an_answer(state: PassphraseView, reply: ReplyView)
    ensures
        passphrase_after(state, reply) == state <==> !answers(passphrase_asks(state), reply),
{
}

/// The variable comes first: it is what is asked for first, and whatever it is set to, be it
/// nothing, is the passphrase, with nothing else asked for.
pub proof fn set_variable_is_the_passphrase(secret: Seq<char>)
    ensures
        passphrase_asks(passphrase_run(Seq::empty())) == RequestView::ReadVariable(
            "HYPRSESSION_PASSPHRASE"@,
        ),
        passphrase_run(seq![ReplyView::Variable(Some(secret))]) == PassphraseView::Obtained(secret),
        passphrase_asks(passphrase_run(seq![ReplyView::Variable(Some(secret))]))
            == RequestView::Nothing,
{
    lemma_one_more(Seq::empty(), ReplyView::Variable(Some(secret)));
    assert(Seq::empty().push(ReplyView::Variable(Some(secret))) =~= seq![
        ReplyView::Variable(Some(secret)),
    ]);
}

proof fn lemma_line_ends_cut_off(text: Seq<char>, line_ends: Seq<char>)
    requires
        text.len() > 0 ==> text.last() != '\n' && text.last() != '\r',
        forall|i: int|
            0 <= i < line_ends.len() ==> #[trigger] line_ends[i] == '\n' || line_ends[i] == '\r',
    ensures
        without_line_end(text + line_ends) == text,
    decreases line_ends.len(),
{
    if line_ends.len() == 0 {
        assert(text + line_ends =~= text);
    } else {
        let fewer = line_ends.drop_last();
        assert forall|i: int| 0 <= i < fewer.len() implies #[trigger] fewer[i] == '\n' || fewer[i]
            == '\r' by {
            assert(fewer[i] == line_ends[i]);
        }
        lemma_line_ends_cut_off(text, fewer);
        assert((text + line_ends).drop_last() =~= text + fewer);
        assert((text + line_ends).last() == line_ends[line_ends.len() - 1]);
    }
}

/// What the keyring keeps is the passphrase: when the variable is not set the keyring is asked,
/// and whatever text it prints, with any ends of lines behind it, is the passphrase, with nothing
/// else asked for.
pub proof fn kept_secret_is_the_passphrase(text: Seq<char>, line_ends: Seq<char>)
    requires
        text.len() > 0,
        text.last() != '\n' && text.last() != '\r',
        forall|i: int|
            0 <= i < line_ends.len() ==> #[trigger] line_ends[i] == '\n' || line_ends[i] == '\r',
    ensures
        passphrase_asks(passphrase_run(seq![ReplyView::Variable(None)]))
            == RequestView::LookUpSecret("hyprsession"@, "passphrase"@),
        ({
            let output = OutputView { success: true, stdout: encode_utf8(text + line_ends) };
            let obtained = passphrase_run(
                seq![ReplyView::Variable(None), ReplyView::SecretLookedUp(Some(output))],
            );
            &&& secret_in(Some(output)) == Some(text)
            &&& obtained == PassphraseView::Obtained(text)
            &&& passphrase_asks(obtained) == RequestView::Nothing
        }),
{
    let output = OutputView { success: true, stdout: encode_utf8(text + line_ends) };
    encode_utf8_valid_utf8(text + line_ends);
    encode_utf8_decode_utf8(text + line_ends);
    lemma_line_ends_cut_off(text, line_ends);
    let unset = seq![ReplyView::Variable(None)];
    lemma_one_more(Seq::empty(), ReplyView::Variable(None));
    assert(Seq::empty().push(ReplyView::Variable(None)) =~= unset);
    lemma_one_more(unset, ReplyView::SecretLookedUp(Some(output)));
    assert(unset.push(ReplyView::SecretLookedUp(Some(output))) =~= seq![
        ReplyView::Variable(None),
        ReplyView::SecretLookedUp(Some(output)),
    ]);
}

/// What is no passphrase: no answer, one that reports failure, bytes that are no text, and text
/// without anything but ends of lines.
pub proof fn useless_answers_hold_no_passphrase(output: OutputView, line_ends: Seq<char>)
    requires
        forall|i: int|
            0 <= i < line_ends.len() ==> #[trigger] line_ends[i] == '\n' || line_ends[i] == '\r',
    ensures
        secret_in(None) is None,
        !output.success ==> secret_in(Some(output)) is None,
        !valid_utf8(output.stdout) ==> secret_in(Some(output)) is None,
        output.stdout == encode_utf8(line_ends) ==> secret_in(Some(output)) is None,
{
    encode_utf8_decode_utf8(line_ends);
    lemma_line_ends_cut_off(Seq::empty(), line_ends);
    assert(Seq::<char>::empty() + line_ends =~= line_ends);
}

/// Without a passphrase in the variable or the keyring, a new one is drawn and left with the
/// keyring. It is the passphrase once the keyring took it. Else the failure is reported and the
/// user asked, and what the user answers is the passphrase, or the reason that there is none.
pub proof fn new_passphrase_is_kept_or_the_user_is_asked(
    output: Option<OutputView>,
    drawn: Seq<char>,
    e: std::io::Error,
    typed: Seq<char>,
    silence: std::io::Error,
)
    requires
        secret_in(output) is None,
    ensures
        ({
            let unfound = seq![ReplyView::Variable(None), ReplyView::SecretLookedUp(output)];
            let storing = unfound.push(ReplyView::Drawn(drawn));
            let kept = storing.push(ReplyView::Done(Ok(())));
            let refused = storing.push(ReplyView::Done(Err(e)));
            let told = refused.push(ReplyView::Told);
            &&& passphrase_asks(passphrase_run(unfound)) == RequestView::DrawPassphrase
            &&& passphrase_asks(passphrase_run(storing)) == RequestView::StoreSecret(
                "hyprsession"@,
                "passphrase"@,
                drawn,
            )
            &&& passphrase_run(kept) == PassphraseView::Obtained(drawn)
            &&& passphrase_asks(passphrase_run(refused)) == RequestView::Report(
                "create passphrase in GNOME Keyring automatically"@,
                ErrorView::Io(e),
            )
            &&& passphrase_asks(passphrase_run(told)) == RequestView::Prompt(
                "Hyprsession passphrase: "@,
            )
            &&& passphrase_run(told.push(ReplyView::Prompted(Ok(typed))))
                == PassphraseView::Obtained(typed)
            &&& passphrase_run(told.push(ReplyView::Prompted(Err(silence))))
                == PassphraseView::Failed(ErrorView::Io(silence))
        }),
{
    let unset = seq![ReplyView::Variable(None)];
    let unfound = seq![ReplyView::Variable(None), ReplyView::SecretLookedUp(output)];
    let storing = unfound.push(ReplyView::Drawn(drawn));
    let refused = storing.push(ReplyView::Done(Err(e)));
    let told = refused.push(ReplyView::Told);
    lemma_one_more(Seq::empty(), ReplyView::Variable(None));
    assert(Seq::empty().push(ReplyView::Variable(None)) =~= unset);
    lemma_one_more(unset, ReplyView::SecretLookedUp(output));
    assert(unset.push(ReplyView::SecretLookedUp(output)) =~= unfound);
    lemma_one_more(unfound, ReplyView::Drawn(drawn));
    lemma_one_more(storing, ReplyView::Done(Ok(())));
    lemma_one_more(storing, ReplyView::Done(Err(e)));
    lemma_one_more(refused, ReplyView::Told);
    lemma_one_more(told, ReplyView::Prompted(Ok(typed)));
    lemma_one_more(told, ReplyView::Prompted(Err(silence)));
}

/// The first state of the search for a passphrase.
pub fn start_passphrase() -> (r: PassphraseState)
    ensures
        r@ == PassphraseView::ReadingVariable,
{
    PassphraseState::ReadingVariable
}

/// What the search for a passphrase waits for.
pub fn passphrase_request<'a>(state: &'a PassphraseState) -> (r: Request<'a>)
    ensures
        r@ == passphrase_asks(state@),
{
    match state {
        PassphraseState::ReadingVariable => Request::ReadVariable(PASSPHRASE_VARIABLE.to_owned()),
        PassphraseState::LookingUp => Request::LookUpSecret(
            SECRET_ATTRIBUTE.to_owned(),
            SECRET_VALUE.to_owned(),
        ),
        PassphraseState::Drawing => Request::DrawPassphrase,
        PassphraseState::Storing { secret } => Request::StoreSecret(
            SECRET_ATTRIBUTE.to_owned(),
            SECRET_VALUE.to_owned(),
            secret,
        ),
        PassphraseState::Reporting { error } => Request::Report(CREATION.to_owned(), error),
        PassphraseState::Prompting => Request::Prompt(PASSPHRASE_PROMPT.to_owned()),
        PassphraseState::Obtained(_) => Request::Nothing,
        PassphraseState::Failed(_) => Request::Nothing,
    }
}

/// Moves the search for a passphrase on.
pub fn obtain_passphrase(state: PassphraseState, reply: Reply) -> (r: PassphraseState)
    ensures
        r@ == passphrase_after(state@, reply@),
{
    match (state, reply) {
        (PassphraseState::ReadingVariable, Reply::Variable(Some(secret))) => {
            PassphraseState::Obtained(secret)
        },
        (PassphraseState::ReadingVariable, Reply::Variable(None)) => PassphraseState::LookingUp,
        (PassphraseState::LookingUp, Reply::SecretLookedUp(output)) => {
            match fetch_passphrase_from_keyring(output) {
                Some(secret) => PassphraseState::Obtained(secret),
                None => PassphraseState::Drawing,
            }
        },
        (PassphraseState::Drawing, Reply::Drawn(secret)) => PassphraseState::Storing { secret },
        (PassphraseState::Storing { secret }, Reply::Done(outcome)) => match outcome {
            Ok(_) => PassphraseState::Obtained(secret),
            Err(e) => PassphraseState::Reporting { error: SessionError::Io(e) },
        },
        (PassphraseState::Reporting { .. }, Reply::Told) => PassphraseState::Prompting,
        (PassphraseState::Prompting, Reply::Prompted(outcome)) => match outcome {
            Ok(secret) => PassphraseState::Obtained(secret),
            Err(e) => PassphraseState::Failed(SessionError::Io(e)),
        },
        (state, _) => state,
    }
}

/// The states of the search, and what the keyring answered, are seen in full.
pub proof fn search_is_seen_in_full(secret: String, e: SessionError, output: ProgramOutput)
    ensures
        PassphraseState::ReadingVariable@ == PassphraseView::ReadingVariable,
        PassphraseState::LookingUp@ == PassphraseView::LookingUp,
        PassphraseState::Drawing@ == PassphraseView::Drawing,
        (PassphraseState::Storing { secret })@ == (PassphraseView::Storing { secret: secret@ }),
        (PassphraseState::Reporting { error: e })@ == (PassphraseView::Reporting { error: e@ }),
        PassphraseState::Prompting@ == PassphraseView::Prompting,
        PassphraseState::Obtained(secret)@ == PassphraseView::Obtained(secret@),
        PassphraseState::Failed(e)@ == PassphraseView::Failed(e@),
        output_view(Some(output)) == Some(output@),
        output_view(None) is None,
{
}

} // verus!
