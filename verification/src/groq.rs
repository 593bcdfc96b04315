//! Talking to Groq: what is asked, and what is made of the answers.
//!
//! Dictation goes through two stages. The first transcribes; the second, a language model, mends
//! the punctuation. The second is a luxury: whatever goes wrong with it, the transcript stays.

use crate::json::{is_document, member_string, string_at, Lookup, LookupView};
use crate::text::{
    blank, contains, law_clean_stays, law_occurs_in_more, law_prefixes_come_off,
    law_trim_is_idempotent, occurs, occurs_at, strip_prefix, trim, trimmed, without_prefix,
};
use vstd::prelude::*;

verus! {

/// Where recordings are transcribed.
pub const TRANSCRIBE_URL: &'static str = "https://api.groq.com/openai/v1/audio/transcriptions";

/// Where transcripts are polished.
pub const CHAT_URL: &'static str = "https://api.groq.com/openai/v1/chat/completions";

/// The model that transcribes.
pub const ASR_MODEL: &'static str = "whisper-large-v3";

/// The models that polish, in the order in which they are tried: the faster one first, the larger
/// one as a safety net.
pub const POLISH_MODELS: [&'static str; 2] = ["openai/gpt-oss-20b", "openai/gpt-oss-120b"];

/// The transcribing model imitates the style of this text, which holds just the punctuation that is
/// wanted.
pub const ASR_PROMPT: &'static str = "Hola, ¿cómo estás? ¡Qué gusto verte! Bueno… vamos a ver: esto es una prueba de dictado; sí, exactamente. Entonces, ¿lo dejamos así?";

/// What the polishing models are told to do.
pub const POLISH_SYSTEM: &'static str = "Eres el corrector de un sistema de dictado por voz en español. Recibes la transcripción automática de una grabación y devuelves EXCLUSIVAMENTE el texto corregido: sin comillas, sin encabezados, sin explicaciones y sin comentarios de ningún tipo.

Reglas:
- Corrige la puntuación: comas, puntos, dos puntos, punto y coma y puntos suspensivos donde corresponda.
- Abre SIEMPRE las preguntas con ¿ y las exclamaciones con ¡.
- Corrige tildes, mayúsculas de inicio de frase y nombres propios.
- Elimina muletillas y titubeos (eh, em, este, mmm, «o sea» repetido) y las repeticiones involuntarias.
- Separa en párrafos solo si el dictado es claramente largo.
- NO resumas, NO parafrasees, NO traduzcas y NO añadas nada que el hablante no haya dicho. Respeta sus palabras y su registro.
- Si el texto ya está correcto, devuélvelo tal cual.
- Si la transcripción está vacía o es ininteligible, devuelve una cadena vacía.";

/// How long a transcription may take, in seconds.
pub const ASR_TIMEOUT_SECS: u64 = 30;

/// How long polishing may take, in seconds.
pub const POLISH_TIMEOUT_SECS: u64 = 8;

// ---------------------------------------------------------------- requests

/// A form to be posted, with a recording in it.
pub struct TranscriptionRequest {
    pub url: String,
    /// The key that the request is signed with.
    pub bearer: String,
    pub timeout_secs: u64,
    /// The name of the field that holds the recording.
    pub file_field: String,
    pub file_name: String,
    pub mime: String,
    pub wav: Vec<u8>,
    /// The other fields, by name, in order.
    pub fields: Vec<(String, String)>,
}

/// Pairs of strings, with texts as sequences of characters.
pub open spec fn pair_texts(pairs: Seq<(String, String)>) -> Seq<(Seq<char>, Seq<char>)> {
    Seq::new(pairs.len(), |i: int| (pairs[i].0@, pairs[i].1@))
}

/// The request to transcribe `wav`, spoken in `language`.
pub fn transcription_request(api_key: &str, wav: Vec<u8>, language: &str) -> (r:
    TranscriptionRequest)
    ensures
        r.url@ == TRANSCRIBE_URL@,
        r.bearer@ == api_key@,
        r.timeout_secs == ASR_TIMEOUT_SECS,
        r.file_field@ == "file"@,
        r.file_name@ == "audio.wav"@,
        r.mime@ == "audio/wav"@,
        r.wav == wav,
        pair_texts(r.fields@) == seq![
            ("model"@, ASR_MODEL@),
            ("language"@, language@),
            ("response_format"@, "json"@),
            ("temperature"@, "0"@),
            ("prompt"@, ASR_PROMPT@),
        ],
{
    let fields: Vec<(String, String)> = vec![
        ("model".to_string(), ASR_MODEL.to_string()),
        ("language".to_string(), language.to_string()),
        ("response_format".to_string(), "json".to_string()),
        ("temperature".to_string(), "0".to_string()),
        ("prompt".to_string(), ASR_PROMPT.to_string()),
    ];
    assert(pair_texts(fields@) =~= seq![
        ("model"@, ASR_MODEL@),
        ("language"@, language@),
        ("response_format"@, "json"@),
        ("temperature"@, "0"@),
        ("prompt"@, ASR_PROMPT@),
    ]);
    TranscriptionRequest {
        url: TRANSCRIBE_URL.to_string(),
        bearer: api_key.to_string(),
        timeout_secs: ASR_TIMEOUT_SECS,
        file_field: "file".to_string(),
        file_name: "audio.wav".to_string(),
        mime: "audio/wav".to_string(),
        wav,
        fields,
    }
}

/// A conversation to be posted.
pub struct ChatRequest {
    pub url: String,
    /// The key that the request is signed with.
    pub bearer: String,
    pub timeout_secs: u64,
    pub model: String,
    pub temperature: u32,
    pub max_tokens: u32,
    /// Who says what, in order.
    pub messages: Vec<(String, String)>,
}

/// The request to have `model` polish `text`.
pub fn polish_request(api_key: &str, text: &str, model: &str) -> (r: ChatRequest)
    ensures
        r.url@ == CHAT_URL@,
        r.bearer@ == api_key@,
        r.timeout_secs == POLISH_TIMEOUT_SECS,
        r.model@ == model@,
        r.temperature == 0,
        r.max_tokens == 2048,
        pair_texts(r.messages@) == seq![("system"@, POLISH_SYSTEM@), ("user"@, text@)],
{
    let messages: Vec<(String, String)> = vec![
        ("system".to_string(), POLISH_SYSTEM.to_string()),
        ("user".to_string(), text.to_string()),
    ];
    assert(pair_texts(messages@) =~= seq![("system"@, POLISH_SYSTEM@), ("user"@, text@)]);
    ChatRequest {
        url: CHAT_URL.to_string(),
        bearer: api_key.to_string(),
        timeout_secs: POLISH_TIMEOUT_SECS,
        model: model.to_string(),
        temperature: 0,
        max_tokens: 2048,
        messages,
    }
}

// ---------------------------------------------------------------- answers

/// The status of an HTTP answer: a number of three digits.
pub struct Status {
    code: u16,
}

impl View for Status {
    type V = u16;

    closed spec fn view(&self) -> u16 {
        self.code
    }
}

impl Status {
    #[verifier::type_invariant]
    spec fn three_digits(self) -> bool {
        100 <= self.code <= 999
    }

    /// The status with this number, where it has three digits.
    pub fn new(code: u16) -> (r: Option<Status>)
        ensures
            (match r {
                Some(status) => 100 <= code <= 999 && status@ == code,
                None => !(100 <= code <= 999),
            }),
    {
        if 100 <= code && code <= 999 {
            Some(Status { code })
        } else {
            None
        }
    }

    /// The number of the status.
    pub fn code(&self) -> (r: u16)
        ensures
            r == self@,
            100 <= r <= 999,
    {
        proof {
            use_type_invariant(self);
        }
        self.code
    }
}

/// The answer means success.
pub open spec fn success(code: u16) -> bool {
    200 <= code <= 299
}

/// The words that go with a status: those that the HTTP registry gives it, and for a status that is
/// not registered words that say so.
pub uninterp spec fn reason_phrase(code: u16) -> Seq<char>;

/// The digit `d`, from 0 to 9.
pub open spec fn digit(d: int) -> char {
    ('0' as int + d) as char
}

/// The three digits of a status, and a space.
pub open spec fn status_number(code: u16) -> Seq<char> {
    seq![digit(code as int / 100), digit(code as int / 10 % 10), digit(code as int % 10), ' ']
}

/// A status in words: its three digits, a space, and the words that go with it.
pub open spec fn status_text(code: u16) -> Seq<char> {
    status_number(code) + reason_phrase(code)
}

/// Puts a status in words with the `Display` of `reqwest::StatusCode`. Claims that the text is the
/// number in decimal, a space, and words that depend on the number alone.
#[verifier::external_body]
fn describe_status(code: u16) -> (r: String)
    requires
        100 <= code <= 999,
    ensures
        r@ == status_number(code) + reason_phrase(code),
{
    match reqwest::StatusCode::from_u16(code) {
        Ok(status) => status.to_string(),
        Err(error) => error.to_string(),
    }
}

/// What the user is told of a failure that has a plain reason.
pub open spec fn known_failure_text(code: u16) -> Option<Seq<char>> {
    if code == 401 {
        Some("API key de Groq inválida. Revísala en Ajustes."@)
    } else if code == 413 {
        Some("La grabación es demasiado larga."@)
    } else if code == 429 {
        Some("Límite de Groq alcanzado. Espera un momento."@)
    } else if 500 <= code <= 599 {
        Some("Groq no está respondiendo. Inténtalo de nuevo."@)
    } else {
        None
    }
}

/// What the user is told of a failure that has a plain reason.
pub fn known_failure(code: u16) -> (r: Option<String>)
    ensures
        (match r {
            Some(s) => known_failure_text(code) == Some(s@),
            None => known_failure_text(code) is None,
        }),
{
    if code == 401 {
        Some("API key de Groq inválida. Revísala en Ajustes.".to_string())
    } else if code == 413 {
        Some("La grabación es demasiado larga.".to_string())
    } else if code == 429 {
        Some("Límite de Groq alcanzado. Espera un momento.".to_string())
    } else if 500 <= code && code <= 599 {
        Some("Groq no está respondiendo. Inténtalo de nuevo.".to_string())
    } else {
        None
    }
}

/// What the user is told of any other failure: the status, and what Groq said about it. That is the
/// message in its answer; or its whole answer, where that is plain text; or nothing, where it is a
/// JSON document without a message, which would tell the user little.
pub open spec fn other_failure_text(
    status: Seq<char>,
    message: LookupView,
    body: Seq<char>,
) -> Seq<char> {
    match message {
        LookupView::Found(m) => "Groq respondió "@ + status + ": "@ + m,
        LookupView::NoDocument => "Groq respondió "@ + status + ": "@ + body,
        LookupView::Absent => "Groq respondió "@ + status,
    }
}

/// What the user is told of any other failure: the status, and what Groq said about it, where
/// `message` is the message that the answer `body` holds.
pub fn other_failure(status: &str, message: Lookup, body: &str) -> (r: String)
    ensures
        r@ == other_failure_text(status@, message@, body@),
{
    let start = "Groq respondió ".to_string().concat(status);
    match message {
        Lookup::Found(m) => start.concat(": ").concat(m.as_str()),
        Lookup::NoDocument => start.concat(": ").concat(body),
        Lookup::Absent => start,
    }
}

/// What the user is told of an answer that does not mean success.
pub open spec fn error_text(code: u16, body: Seq<char>) -> Seq<char> {
    match known_failure_text(code) {
        Some(text) => text,
        None => other_failure_text(
            status_text(code),
            member_string(body, "error"@, "message"@),
            body,
        ),
    }
}

/// What the user is told of an answer that does not mean success: something to act on, in place of
/// the raw answer.
pub fn explain_error(status: &Status, body: &str) -> (r: String)
    ensures
        r@ == error_text(status@, body@),
{
    match known_failure(status.code()) {
        Some(text) => text,
        None => other_failure(
            describe_status(status.code()).as_str(),
            string_at(body, "error", "message"),
            body,
        ),
    }
}

/// How a request went.
pub enum Exchange {
    /// It could not be made, or its answer could not be read.
    Failed(String),
    /// It could not be sent.
    Unreachable(String),
    /// It was answered.
    Answered { status: Status, body: String },
}

// ---------------------------------------------------------------- transcription

/// A lower-case text holds a phrase of the subtitles that the transcribing model learned from, and
/// falls back on when it hears no voice; one that says so wherever it stands.
pub open spec fn marked(lowered: Seq<char>) -> bool {
    ||| occurs("amara.org"@, lowered)
    ||| occurs("subtítulos realizados por"@, lowered)
    ||| occurs("suscríbete al canal"@, lowered)
    ||| occurs("gracias por ver el video"@, lowered)
    ||| occurs("gracias por ver el vídeo"@, lowered)
}

/// How a credit of subtitles begins: the name of whoever made them follows.
pub const CREDIT: &'static str = "subtítulos por";

/// What may follow the same words in speech, where no name does.
pub const NOT_CREDITED: [&'static str; 16] = [
    " favor",
    " defecto",
    " ejemplo",
    " separado",
    " supuesto",
    " ahora",
    " aquí",
    " completo",
    " correo",
    " idioma",
    " idiomas",
    " capítulo",
    " capítulos",
    " eso",
    " lo",
    " si",
];

/// A letter of Spanish in lower case.
pub open spec fn letter(c: char) -> bool {
    ||| 'a' <= c <= 'z'
    ||| c == 'á'
    ||| c == 'é'
    ||| c == 'í'
    ||| c == 'ó'
    ||| c == 'ú'
    ||| c == 'ü'
    ||| c == 'ñ'
}

/// Whether `c` is a letter of Spanish in lower case.
fn is_letter(c: char) -> (r: bool)
    ensures
        r == letter(c),
{
    ('a' <= c && c <= 'z') || c == 'á' || c == 'é' || c == 'í' || c == 'ó' || c == 'ú' || c == 'ü'
        || c == 'ñ'
}

/// What stands before `rest` ends in a whole word.
pub open spec fn word_ends(rest: Seq<char>) -> bool {
    rest.len() == 0 || !letter(rest[0])
}

/// Whether what stands before `rest` ends in a whole word.
fn ends_word(rest: &str) -> (r: bool)
    ensures
        r == word_ends(rest@),
{
    rest.unicode_len() == 0 || !is_letter(rest.get_char(0))
}

/// `s` begins with `words`, and the last of them ends there.
pub open spec fn begins_with_words(s: Seq<char>, words: Seq<char>) -> bool {
    without_prefix(s, words) is Some && word_ends(without_prefix(s, words)->0)
}

/// What follows the words of a credit shows that it is none.
pub open spec fn not_credited(rest: Seq<char>) -> bool {
    exists|i: int|
        0 <= i < NOT_CREDITED@.len() && #[trigger] begins_with_words(rest, NOT_CREDITED@[i]@)
}

/// A lower-case text is a credit of subtitles: it begins as one does, and does not go on as people
/// speak.
pub open spec fn credit(lowered: Seq<char>) -> bool {
    begins_with_words(lowered, CREDIT@) && !not_credited(lowered.skip(CREDIT@.len() as int))
}

/// A lower-case text is one that the transcribing model makes up out of noise. Only what nobody
/// would dictate; what might be meant is let pass.
pub open spec fn noise(lowered: Seq<char>) -> bool {
    marked(lowered) || credit(lowered)
}

/// Whether what follows the words of a credit shows that it is none.
fn is_not_credited(rest: &str) -> (r: bool)
    ensures
        r == not_credited(rest@),
{
    let mut i: usize = 0;
    while i < NOT_CREDITED.len()
        invariant
            i <= NOT_CREDITED@.len(),
            forall|j: int| 0 <= j < i ==> !#[trigger] begins_with_words(rest@, NOT_CREDITED@[j]@),
        decreases NOT_CREDITED@.len() - i,
    {
        if let Some(behind) = strip_prefix(rest, NOT_CREDITED[i]) {
            if ends_word(behind) {
                assert(begins_with_words(rest@, NOT_CREDITED@[i as int]@));
                return true;
            }
        }
        i = i + 1;
    }
    false
}

/// Whether a lower-case text is a credit of subtitles.
fn is_credit(lowered: &str) -> (r: bool)
    ensures
        r == credit(lowered@),
{
    match strip_prefix(lowered, CREDIT) {
        Some(rest) => ends_word(rest) && !is_not_credited(rest),
        None => false,
    }
}

/// Whether a lower-case text is one that the transcribing model makes up out of noise.
pub fn is_noise(lowered: &str) -> (r: bool)
    ensures
        r == noise(lowered@),
{
    contains(lowered, "amara.org") || contains(lowered, "subtítulos realizados por") || contains(
        lowered,
        "suscríbete al canal",
    ) || contains(lowered, "gracias por ver el video") || contains(
        lowered,
        "gracias por ver el vídeo",
    ) || is_credit(lowered)
}

/// A text in lower case, as Unicode has it.
pub uninterp spec fn lowercase(s: Seq<char>) -> Seq<char>;

/// Puts a text in lower case with `str::to_lowercase`. Claims only that the result depends on the
/// text alone. Nothing is said of which letters become which, nor that a text is lowered part by
/// part: a sigma depends on its neighbours.
#[verifier::external_body]
fn to_lowercase(s: &str) -> (r: String)
    ensures
        r@ == lowercase(s@),
{
    s.to_lowercase()
}

/// Whether a transcript is one that the model made up out of noise.
pub fn is_hallucination(text: &str) -> (r: bool)
    ensures
        r == noise(lowercase(text@)),
{
    is_noise(to_lowercase(text).as_str())
}

/// A transcript as it is used, given what it is in lower case: nothing, where it is made up.
pub open spec fn screened(text: Seq<char>, lowered: Seq<char>) -> Seq<char> {
    if noise(lowered) {
        Seq::empty()
    } else {
        text
    }
}

/// What comes of a request to transcribe, where `parsed` is the transcript in the body of its
/// answer, or why there is none.
pub open spec fn transcription(
    exchange: Exchange,
    parsed: Result<String, String>,
) -> Result<Seq<char>, Seq<char>> {
    match exchange {
        Exchange::Failed(e) => Err(e@),
        Exchange::Unreachable(e) => Err("no se pudo contactar con Groq: "@ + e@),
        Exchange::Answered { status, body } => if !success(status@) {
            Err(error_text(status@, body@))
        } else {
            match parsed {
                Err(e) => Err("respuesta inesperada de Groq: "@ + e@),
                Ok(text) => Ok(screened(trimmed(text@), lowercase(trimmed(text@)))),
            }
        },
    }
}

/// A text or a reason why there is none, as sequences of characters.
pub open spec fn result_text(r: Result<String, String>) -> Result<Seq<char>, Seq<char>> {
    match r {
        Ok(text) => Ok(text@),
        Err(e) => Err(e@),
    }
}

/// A transcript as it is used, given what it is in lower case: nothing, where it is made up.
pub fn screen(text: &str, lowered: &str) -> (r: String)
    ensures
        r@ == screened(text@, lowered@),
{
    if is_noise(lowered) {
        String::new()
    } else {
        text.to_string()
    }
}

/// The raw transcript out of the answer to a request, or what the user is told instead. `parsed` is
/// the transcript that the body of the answer holds, or why it holds none.
pub fn transcribe(exchange: Exchange, parsed: Result<String, String>) -> (r: Result<
    String,
    String,
>)
    ensures
        result_text(r) == transcription(exchange, parsed),
{
    match exchange {
        Exchange::Failed(e) => Err(e),
        Exchange::Unreachable(e) => Err(
            "no se pudo contactar con Groq: ".to_string().concat(e.as_str()),
        ),
        Exchange::Answered { status, body } => {
            let code: u16 = status.code();
            if code < 200 || code > 299 {
                return Err(explain_error(&status, body.as_str()));
            }
            match parsed {
                Err(e) => Err("respuesta inesperada de Groq: ".to_string().concat(e.as_str())),
                Ok(text) => {
                    let text = trim(text.as_str());
                    Ok(screen(text, to_lowercase(text).as_str()))
                },
            }
        },
    }
}

// ---------------------------------------------------------------- polishing

/// A text without the quotation marks around it, straight or angular.
pub open spec fn unquoted(s: Seq<char>) -> Seq<char> {
    let paired = s.len() >= 2 && (s.first() == '"' && s.last() == '"' || s.first() == '«' && s.last()
        == '»');
    if paired {
        s.subrange(1, s.len() - 1)
    } else {
        s
    }
}

/// A text without quotation marks and white space around it.
pub open spec fn unwrapped(s: Seq<char>) -> Seq<char> {
    trimmed(unquoted(trimmed(s)))
}

/// A text without the quotation marks that some models put around it.
pub fn strip_wrapping_quotes(text: &str) -> (r: String)
    ensures
        r@ == unwrapped(text@),
{
    let inner = trim(text);
    let len: usize = inner.unicode_len();
    if len >= 2 {
        let first: char = inner.get_char(0);
        let last: char = inner.get_char(len - 1);
        if (first == '"' && last == '"') || (first == '«' && last == '»') {
            return trim(inner.substring_char(1, len - 1)).to_string();
        }
    }
    trim(inner).to_string()
}

/// What comes of a request to polish, where `parsed` is what the choices in the body of its answer
/// say, or why there are none.
pub open spec fn polishing(
    exchange: Exchange,
    parsed: Result<Vec<String>, String>,
) -> Result<Seq<char>, Seq<char>> {
    match exchange {
        Exchange::Failed(e) => Err(e@),
        Exchange::Unreachable(e) => Err(e@),
        Exchange::Answered { status, body } => if !success(status@) {
            Err(error_text(status@, body@))
        } else {
            match parsed {
                Err(e) => Err(e@),
                Ok(choices) => Ok(
                    if choices@.len() > 0 {
                        unwrapped(choices@[0]@)
                    } else {
                        Seq::empty()
                    },
                ),
            }
        },
    }
}

/// The polished text out of the answer of one model, or why there is none. `parsed` is what the
/// choices in the body of the answer say, or why there are none.
pub fn try_polish(exchange: Exchange, parsed: Result<Vec<String>, String>) -> (r: Result<
    String,
    String,
>)
    ensures
        result_text(r) == polishing(exchange, parsed),
{
    match exchange {
        Exchange::Failed(e) => Err(e),
        Exchange::Unreachable(e) => Err(e),
        Exchange::Answered { status, body } => {
            let code: u16 = status.code();
            if code < 200 || code > 299 {
                return Err(explain_error(&status, body.as_str()));
            }
            match parsed {
                Err(e) => Err(e),
                Ok(choices) => {
                    if choices.len() > 0 {
                        proof {
                            law_trim_is_idempotent(choices@[0]@);
                        }
                        Ok(strip_wrapping_quotes(trim(choices[0].as_str())))
                    } else {
                        Ok(String::new())
                    }
                },
            }
        },
    }
}

/// What to do next about polishing a text.
pub enum PolishStep {
    /// Have this model try.
    Ask(&'static str),
    /// Use this text.
    Done(String),
}

/// [`PolishStep`], with texts as sequences of characters.
pub enum PolishStepView {
    Ask(Seq<char>),
    Done(Seq<char>),
}

impl View for PolishStep {
    type V = PolishStepView;

    open spec fn view(&self) -> PolishStepView {
        match *self {
            PolishStep::Ask(model) => PolishStepView::Ask(model@),
            PolishStep::Done(text) => PolishStepView::Done(text@),
        }
    }
}

/// Attempts, with texts as sequences of characters.
pub open spec fn attempt_texts(
    attempts: Seq<Result<String, String>>,
) -> Seq<Result<Seq<char>, Seq<char>>> {
    Seq::new(attempts.len(), |i: int| result_text(attempts[i]))
}

/// What the attempts so far have settled: the first that did not fail decides, and a model that has
/// nothing to say leaves the text as it was.
pub open spec fn settled(
    text: Seq<char>,
    attempts: Seq<Result<Seq<char>, Seq<char>>>,
) -> Option<Seq<char>>
    decreases attempts.len(),
{
    if attempts.len() == 0 {
        None
    } else {
        match attempts[0] {
            Ok(polished) => Some(
                if blank(polished) {
                    text
                } else {
                    polished
                },
            ),
            Err(_) => settled(text, attempts.drop_first()),
        }
    }
}

/// What to do next about polishing `text`, after these attempts, each with the model that was next
/// in turn.
pub open spec fn polish_step(
    text: Seq<char>,
    attempts: Seq<Result<Seq<char>, Seq<char>>>,
) -> PolishStepView {
    match settled(text, attempts) {
        Some(result) => PolishStepView::Done(result),
        None => if attempts.len() < POLISH_MODELS@.len() {
            PolishStepView::Ask(POLISH_MODELS@[attempts.len() as int]@)
        } else {
            PolishStepView::Done(text)
        },
    }
}

/// What to do next about polishing `text`, after these attempts, each with the model that was next
/// in turn. Never fails: where all models do, the text stays as it was.
pub fn polish(text: &str, attempts: &Vec<Result<String, String>>) -> (r: PolishStep)
    ensures
        r@ == polish_step(text@, attempt_texts(attempts@)),
{
    let ghost all = attempt_texts(attempts@);
    let mut i: usize = 0;
    assert(all.skip(0) =~= all);
    while i < attempts.len()
        invariant
            i <= attempts.len(),
            all == attempt_texts(attempts@),
            settled(text@, all) == settled(text@, all.skip(i as int)),
        decreases attempts.len() - i,
    {
        assert(all.skip(i as int)[0] == result_text(attempts@[i as int]));
        match &attempts[i] {
            Ok(polished) => {
                if trim(polished.as_str()).is_empty() {
                    return PolishStep::Done(text.to_string());
                } else {
                    return PolishStep::Done(polished.clone());
                }
            },
            Err(_) => {
                assert(all.skip(i as int).drop_first() =~= all.skip(i + 1));
            },
        }
        i = i + 1;
    }
    if attempts.len() < POLISH_MODELS.len() {
        PolishStep::Ask(POLISH_MODELS[attempts.len()])
    } else {
        PolishStep::Done(text.to_string())
    }
}

// ---------------------------------------------------------------- laws

/// The user is never shown raw JSON: of an answer that is a JSON document they see the message that
/// it holds, or nothing. So the text does not depend on anything else in it.
pub proof fn law_raw_json_is_not_shown(code: u16, body: Seq<char>, other: Seq<char>)
    requires
        is_document(body),
    ensures
        known_failure_text(code) is None ==> match member_string(body, "error"@, "message"@) {
            LookupView::Found(m) => error_text(code, body) == "Groq respondió "@ + status_text(code)
                + ": "@ + m,
            _ => error_text(code, body) == "Groq respondió "@ + status_text(code),
        },
        member_string(body, "error"@, "message"@) == member_string(other, "error"@, "message"@)
            ==> error_text(code, body) == error_text(code, other),
{
}

/// Text around a phrase that says so wherever it stands does not hide it.
pub proof fn law_noise_shows_through(
    lowered: Seq<char>,
    before: Seq<char>,
    behind: Seq<char>,
)
    requires
        marked(lowered),
    ensures
        noise(before + lowered + behind),
{
    if occurs("amara.org"@, lowered) {
        law_occurs_in_more("amara.org"@, lowered, before, behind);
    } else if occurs("subtítulos realizados por"@, lowered) {
        law_occurs_in_more("subtítulos realizados por"@, lowered, before, behind);
    } else if occurs("suscríbete al canal"@, lowered) {
        law_occurs_in_more("suscríbete al canal"@, lowered, before, behind);
    } else if occurs("gracias por ver el video"@, lowered) {
        law_occurs_in_more("gracias por ver el video"@, lowered, before, behind);
    } else {
        law_occurs_in_more("gracias por ver el vídeo"@, lowered, before, behind);
    }
}

/// Speech about subtitles passes: the words of a credit count only at the beginning of a text, and
/// not where they go on as people speak.
pub proof fn law_speech_about_subtitles_passes(lowered: Seq<char>, i: int, behind: Seq<char>)
    ensures
        without_prefix(lowered, CREDIT@) is None && !marked(lowered) ==> !noise(lowered),
        0 <= i < NOT_CREDITED@.len() && word_ends(behind) && !marked(
            CREDIT@ + NOT_CREDITED@[i]@ + behind,
        ) ==> !noise(CREDIT@ + NOT_CREDITED@[i]@ + behind),
{
    if 0 <= i < NOT_CREDITED@.len() && word_ends(behind) {
        let words = NOT_CREDITED@[i]@;
        let s = CREDIT@ + words + behind;
        let rest = s.skip(CREDIT@.len() as int);
        assert(rest =~= words + behind);
        assert(rest.subrange(0, words.len() as int) =~= words);
        assert(rest.take(words.len() as int) =~= words);
        assert(rest.skip(words.len() as int) =~= behind);
        assert(begins_with_words(rest, words));
    }
}

/// After the space, all that may follow the words of a credit in speech is letters.
proof fn lemma_words_are_letters(i: int, k: int)
    requires
        0 <= i < NOT_CREDITED@.len(),
        1 <= k < NOT_CREDITED@[i]@.len(),
    ensures
        letter(NOT_CREDITED@[i]@[k]),
{
    reveal_strlit(" favor");
    reveal_strlit(" defecto");
    reveal_strlit(" ejemplo");
    reveal_strlit(" separado");
    reveal_strlit(" supuesto");
    reveal_strlit(" ahora");
    reveal_strlit(" aquí");
    reveal_strlit(" completo");
    reveal_strlit(" correo");
    reveal_strlit(" idioma");
    reveal_strlit(" idiomas");
    reveal_strlit(" capítulo");
    reveal_strlit(" capítulos");
    reveal_strlit(" eso");
    reveal_strlit(" lo");
    reveal_strlit(" si");
}

/// More text behind a credit does not hide it, once the credit goes on after its first words and
/// where the text does not continue its last word.
pub proof fn law_a_credit_shows_through(lowered: Seq<char>, behind: Seq<char>)
    requires
        credit(lowered),
        lowered.len() > CREDIT@.len(),
        word_ends(behind),
    ensures
        noise(lowered + behind),
{
    let whole = lowered + behind;
    let n = CREDIT@.len() as int;
    let rest = lowered.skip(n);
    let more = whole.skip(n);
    assert(more =~= rest + behind);
    assert(whole.take(n) =~= lowered.take(n));
    assert forall|i: int| 0 <= i < NOT_CREDITED@.len() implies !#[trigger] begins_with_words(
        more,
        NOT_CREDITED@[i]@,
    ) by {
        let words = NOT_CREDITED@[i]@;
        let len = words.len() as int;
        if begins_with_words(more, words) {
            assert(more.take(len) =~= words);
            if len <= rest.len() {
                assert(rest.take(len) =~= words);
                assert(more.skip(len) =~= rest.skip(len) + behind);
                assert(begins_with_words(rest, words));
            } else {
                let k = rest.len() as int;
                assert(words[k] == more.take(len)[k]);
                assert(words[k] == behind[0]);
                lemma_words_are_letters(i, k);
            }
        }
    }
}

proof fn lemma_settled(text: Seq<char>, attempts: Seq<Result<Seq<char>, Seq<char>>>)
    ensures
        settled(text, attempts) is None <==> (forall|i: int|
            0 <= i < attempts.len() ==> #[trigger] attempts[i] is Err),
        settled(text, attempts) is Some ==> settled(text, attempts)->0 == text || (!blank(
            settled(text, attempts)->0,
        ) && attempts.contains(Ok(settled(text, attempts)->0))),
    decreases attempts.len(),
{
    if attempts.len() > 0 {
        let rest = attempts.drop_first();
        lemma_settled(text, rest);
        match attempts[0] {
            Ok(_) => {
                assert(!(attempts[0] is Err));
            },
            Err(_) => {
                assert(forall|i: int| 0 <= i < rest.len() ==> rest[i] == attempts[i + 1]);
                if settled(text, rest) is None {
                    assert forall|i: int| 0 <= i < attempts.len() implies #[trigger] attempts[i] is Err by {
                        if i > 0 {
                            assert(rest[i - 1] is Err);
                        }
                    }
                } else {
                    let i = choose|i: int| 0 <= i < rest.len() && !(#[trigger] rest[i] is Err);
                    assert(!(attempts[i + 1] is Err));
                    let found: Result<Seq<char>, Seq<char>> = Ok(settled(text, rest)->0);
                    if rest.contains(found) {
                        let k = rest.index_of(found);
                        assert(attempts[k + 1] == found);
                    }
                }
            },
        }
    }
}

/// Polishing never loses a dictation: it ends in the text itself or in what a model made of it, and
/// a text that is not blank never becomes blank.
pub proof fn law_polishing_never_loses_the_text(
    text: Seq<char>,
    attempts: Seq<Result<Seq<char>, Seq<char>>>,
)
    requires
        polish_step(text, attempts) is Done,
    ensures
        ({
            let result = polish_step(text, attempts)->Done_0;
            &&& result == text || attempts.contains(Ok(result))
            &&& !blank(text) ==> !blank(result)
        }),
{
    lemma_settled(text, attempts);
}

/// Another model is asked exactly while all so far have failed and one is left, and they are asked
/// in their order. So polishing ends after as many attempts as there are models, at the latest.
pub proof fn law_models_are_asked_in_turn(
    text: Seq<char>,
    attempts: Seq<Result<Seq<char>, Seq<char>>>,
)
    ensures
        polish_step(text, attempts) is Ask <==> attempts.len() < POLISH_MODELS@.len() && (forall|
            i: int,
        |
            0 <= i < attempts.len() ==> #[trigger] attempts[i] is Err),
        polish_step(text, attempts) is Ask ==> polish_step(text, attempts)->Ask_0
            == POLISH_MODELS@[attempts.len() as int]@,
{
    lemma_settled(text, attempts);
}

/// Where every model fails, the text stays as it was.
pub proof fn law_text_stays_when_all_models_fail(
    text: Seq<char>,
    attempts: Seq<Result<Seq<char>, Seq<char>>>,
)
    requires
        attempts.len() >= POLISH_MODELS@.len(),
        forall|i: int| 0 <= i < attempts.len() ==> #[trigger] attempts[i] is Err,
    ensures
        polish_step(text, attempts) == PolishStepView::Done(text),
{
    lemma_settled(text, attempts);
}

/// A transcript has no white space around it, and neither has a polished text.
pub proof fn law_results_are_trimmed(
    exchange: Exchange,
    parsed: Result<String, String>,
    choices: Result<Vec<String>, String>,
)
    ensures
        transcription(exchange, parsed) is Ok ==> trimmed(transcription(exchange, parsed)->Ok_0)
            == transcription(exchange, parsed)->Ok_0,
        polishing(exchange, choices) is Ok ==> trimmed(polishing(exchange, choices)->Ok_0)
            == polishing(exchange, choices)->Ok_0,
{
    if parsed is Ok {
        law_trim_is_idempotent(parsed->Ok_0@);
    }
    if choices is Ok && choices->Ok_0@.len() > 0 {
        law_trim_is_idempotent(unquoted(trimmed(choices->Ok_0@[0]@)));
    }
}

// ---------------------------------------------------------------- what passes and what does not

/// Ordinary speech passes: a text in which none of the six phrases occurs is never taken for noise.
pub proof fn law_ordinary_speech_passes(lowered: Seq<char>)
    requires
        !occurs("amara.org"@, lowered),
        !occurs("subtítulos realizados por"@, lowered),
        !occurs("subtítulos por"@, lowered),
        !occurs("suscríbete al canal"@, lowered),
        !occurs("gracias por ver el video"@, lowered),
        !occurs("gracias por ver el vídeo"@, lowered),
    ensures
        !noise(lowered),
        forall|text: Seq<char>| #[trigger] screened(text, lowered) == text,
{
    assert(!occurs_at("subtítulos por"@, lowered, 0));
}

/// Speech about subtitles passes, where none of the other phrases occurs: the words of a credit in
/// the middle of a text, as the beginning of a longer word, or before words that people say.
pub proof fn law_requests_for_subtitles_pass(lowered: Seq<char>, rest: Seq<char>, i: int)
    requires
        !occurs("amara.org"@, lowered),
        !occurs("subtítulos realizados por"@, lowered),
        !occurs("suscríbete al canal"@, lowered),
        !occurs("gracias por ver el video"@, lowered),
        !occurs("gracias por ver el vídeo"@, lowered),
    ensures
        (forall|behind: Seq<char>| lowered != #[trigger] ("subtítulos por"@ + behind)) ==> !noise(
            lowered,
        ),
        lowered == "subtítulos por"@ + rest && rest.len() > 0 && ('a' <= rest[0] <= 'z' || rest[0] == 'á' || rest[0] == 'é' || rest[0] == 'í'
            || rest[0] == 'ó' || rest[0] == 'ú' || rest[0] == 'ü' || rest[0] == 'ñ') ==> !noise(lowered),
        0 <= i < 16 && lowered == "subtítulos por"@ + NOT_CREDITED@[i]@ + rest && (rest.len() == 0
            || !('a' <= rest[0] <= 'z' || rest[0] == 'á' || rest[0] == 'é' || rest[0] == 'í'
            || rest[0] == 'ó' || rest[0] == 'ú' || rest[0] == 'ü' || rest[0] == 'ñ')) ==> !noise(
            lowered,
        ),
{
    law_prefixes_come_off(lowered, "subtítulos por"@, rest);
    if lowered == "subtítulos por"@ + rest {
        assert(lowered.skip("subtítulos por"@.len() as int) =~= rest);
    }
    if 0 <= i < 16 && lowered == "subtítulos por"@ + NOT_CREDITED@[i]@ + rest {
        assert(lowered =~= "subtítulos por"@ + (NOT_CREDITED@[i]@ + rest));
        law_prefixes_come_off(lowered, "subtítulos por"@, NOT_CREDITED@[i]@ + rest);
        law_prefixes_come_off(NOT_CREDITED@[i]@ + rest, NOT_CREDITED@[i]@, rest);
        assert(lowered.skip("subtítulos por"@.len() as int) =~= NOT_CREDITED@[i]@ + rest);
        if word_ends(rest) {
            assert(begins_with_words(NOT_CREDITED@[i]@ + rest, NOT_CREDITED@[i]@));
        }
    }
}

/// What people say after the words that begin a credit.
pub proof fn law_what_people_say_after_the_words_of_a_credit()
    ensures
        NOT_CREDITED@.len() == 16,
        NOT_CREDITED@[0]@ == " favor"@,
        NOT_CREDITED@[1]@ == " defecto"@,
        NOT_CREDITED@[2]@ == " ejemplo"@,
        NOT_CREDITED@[3]@ == " separado"@,
        NOT_CREDITED@[4]@ == " supuesto"@,
        NOT_CREDITED@[5]@ == " ahora"@,
        NOT_CREDITED@[6]@ == " aquí"@,
        NOT_CREDITED@[7]@ == " completo"@,
        NOT_CREDITED@[8]@ == " correo"@,
        NOT_CREDITED@[9]@ == " idioma"@,
        NOT_CREDITED@[10]@ == " idiomas"@,
        NOT_CREDITED@[11]@ == " capítulo"@,
        NOT_CREDITED@[12]@ == " capítulos"@,
        NOT_CREDITED@[13]@ == " eso"@,
        NOT_CREDITED@[14]@ == " lo"@,
        NOT_CREDITED@[15]@ == " si"@,
{
}

/// What nobody would dictate is taken for noise: five phrases wherever they stand, and the words of a
/// credit at the beginning, alone or before anything but a letter and what people say after them.
pub proof fn law_made_up_phrases_are_noise(lowered: Seq<char>, rest: Seq<char>)
    ensures
        occurs("amara.org"@, lowered) ==> noise(lowered),
        occurs("subtítulos realizados por"@, lowered) ==> noise(lowered),
        occurs("suscríbete al canal"@, lowered) ==> noise(lowered),
        occurs("gracias por ver el video"@, lowered) ==> noise(lowered),
        occurs("gracias por ver el vídeo"@, lowered) ==> noise(lowered),
        noise("subtítulos por"@),
        rest.len() > 0 && !('a' <= rest[0] <= 'z' || rest[0] == 'á' || rest[0] == 'é' || rest[0] == 'í'
            || rest[0] == 'ó' || rest[0] == 'ú' || rest[0] == 'ü' || rest[0] == 'ñ') && (forall|i: int|
            0 <= i < 16 ==> without_prefix(rest, #[trigger] NOT_CREDITED@[i]@) is None) ==> noise(
            "subtítulos por"@ + rest,
        ),
{
    let nothing = Seq::<char>::empty();
    assert("subtítulos por"@ + nothing =~= "subtítulos por"@);
    law_prefixes_come_off(lowered, "subtítulos por"@, nothing);
    law_prefixes_come_off(lowered, "subtítulos por"@, rest);
    assert("subtítulos por"@.skip("subtítulos por"@.len() as int) =~= nothing);
    assert(("subtítulos por"@ + rest).skip("subtítulos por"@.len() as int) =~= rest);
    assert forall|i: int| 0 <= i < 16 implies NOT_CREDITED@[i]@.len() > 0 by {
        lemma_words_are_not_empty(i);
    }
    assert(forall|i: int|
        0 <= i < NOT_CREDITED@.len() ==> !#[trigger] begins_with_words(nothing, NOT_CREDITED@[i]@));
}

proof fn lemma_words_are_not_empty(i: int)
    requires
        0 <= i < NOT_CREDITED@.len(),
    ensures
        NOT_CREDITED@[i]@.len() > 0,
{
    reveal_strlit(" favor");
    reveal_strlit(" defecto");
    reveal_strlit(" ejemplo");
    reveal_strlit(" separado");
    reveal_strlit(" supuesto");
    reveal_strlit(" ahora");
    reveal_strlit(" aquí");
    reveal_strlit(" completo");
    reveal_strlit(" correo");
    reveal_strlit(" idioma");
    reveal_strlit(" idiomas");
    reveal_strlit(" capítulo");
    reveal_strlit(" capítulos");
    reveal_strlit(" eso");
    reveal_strlit(" lo");
    reveal_strlit(" si");
}

/// A transcript reaches the user, with the white space around it taken off and nothing else changed,
/// where Groq answered with success and none of the six phrases occurs in it in lower case.
pub proof fn law_a_transcript_reaches_the_user(
    status: Status,
    body: String,
    text: String,
)
    requires
        200 <= status@ <= 299,
        ({
            let lowered = lowercase(trimmed(text@));
            &&& !occurs("amara.org"@, lowered)
            &&& !occurs("subtítulos realizados por"@, lowered)
            &&& !occurs("subtítulos por"@, lowered)
            &&& !occurs("suscríbete al canal"@, lowered)
            &&& !occurs("gracias por ver el video"@, lowered)
            &&& !occurs("gracias por ver el vídeo"@, lowered)
        }),
    ensures
        transcription(Exchange::Answered { status, body }, Ok(text)) == Ok::<Seq<char>, Seq<char>>(
            trimmed(text@),
        ),
{
    law_ordinary_speech_passes(lowercase(trimmed(text@)));
}

/// Noise is no failure: it gives an empty transcript. And nothing else is ever left out of one.
pub proof fn law_noise_gives_an_empty_transcript(status: Status, body: String, text: String)
    requires
        200 <= status@ <= 299,
    ensures
        ({
            let result = transcription(Exchange::Answered { status, body }, Ok(text));
            &&& result is Ok
            &&& noise(lowercase(trimmed(text@))) ==> result->Ok_0.len() == 0
            &&& !noise(lowercase(trimmed(text@))) ==> result->Ok_0 == trimmed(text@)
        }),
{
}

/// An answer outside 200 to 299 is a failure whatever its body holds, and so is one that could not be
/// had or read; each is told in its own words.
pub proof fn law_failed_requests_are_failures(
    status: Status,
    body: String,
    reason: String,
    parsed: Result<String, String>,
    choices: Result<Vec<String>, String>,
)
    ensures
        !(200 <= status@ <= 299) ==> transcription(Exchange::Answered { status, body }, parsed)
            == Err::<Seq<char>, Seq<char>>(error_text(status@, body@)),
        !(200 <= status@ <= 299) ==> polishing(Exchange::Answered { status, body }, choices) == Err::<
            Seq<char>,
            Seq<char>,
        >(error_text(status@, body@)),
        200 <= status@ <= 299 ==> transcription(
            Exchange::Answered { status, body },
            Err(reason),
        ) == Err::<Seq<char>, Seq<char>>("respuesta inesperada de Groq: "@ + reason@),
        200 <= status@ <= 299 ==> polishing(Exchange::Answered { status, body }, Err(reason))
            == Err::<Seq<char>, Seq<char>>(reason@),
        transcription(Exchange::Failed(reason), parsed) == Err::<Seq<char>, Seq<char>>(reason@),
        transcription(Exchange::Unreachable(reason), parsed) == Err::<Seq<char>, Seq<char>>(
            "no se pudo contactar con Groq: "@ + reason@,
        ),
        polishing(Exchange::Failed(reason), choices) == Err::<Seq<char>, Seq<char>>(reason@),
        polishing(Exchange::Unreachable(reason), choices) == Err::<Seq<char>, Seq<char>>(reason@),
{
}

/// Of the choices in an answer the first counts, without the quotation marks and the white space
/// around it; an answer without choices says nothing.
pub proof fn law_the_first_choice_counts(
    status: Status,
    body: String,
    choices: Vec<String>,
)
    requires
        200 <= status@ <= 299,
    ensures
        ({
            let result = polishing(Exchange::Answered { status, body }, Ok(choices));
            &&& result is Ok
            &&& choices@.len() > 0 ==> result->Ok_0 == unwrapped(choices@[0]@)
            &&& choices@.len() == 0 ==> result->Ok_0.len() == 0
        }),
{
}

/// Each failure has its words: the key, the length of the recording, the limit, and Groq itself are
/// told as what they are, whatever the body; any other by its status, and by what Groq said about it.
pub proof fn law_failures_have_their_words(code: u16, body: Seq<char>)
    ensures
        code == 401 ==> error_text(code, body) == "API key de Groq inválida. Revísala en Ajustes."@,
        code == 413 ==> error_text(code, body) == "La grabación es demasiado larga."@,
        code == 429 ==> error_text(code, body) == "Límite de Groq alcanzado. Espera un momento."@,
        500 <= code <= 599 ==> error_text(code, body)
            == "Groq no está respondiendo. Inténtalo de nuevo."@,
        !(code == 401 || code == 413 || code == 429 || 500 <= code <= 599) ==> error_text(code, body)
            == "Groq respondió "@ + status_text(code) + match member_string(
            body,
            "error"@,
            "message"@,
        ) {
            LookupView::Found(m) => ": "@ + m,
            LookupView::NoDocument => ": "@ + body,
            LookupView::Absent => Seq::empty(),
        },
{
    let status = status_text(code);
    if !(code == 401 || code == 413 || code == 429 || 500 <= code <= 599) {
        let start = "Groq respondió "@ + status;
        match member_string(body, "error"@, "message"@) {
            LookupView::Found(m) => {
                assert(start + ": "@ + m =~= start + (": "@ + m));
            },
            LookupView::NoDocument => {
                assert(start + ": "@ + body =~= start + (": "@ + body));
            },
            LookupView::Absent => {
                assert(start + Seq::<char>::empty() =~= start);
            },
        }
    }
}

/// A status in words begins with its number in decimal, then comes a space.
pub proof fn law_a_status_begins_with_its_number(code: u16)
    requires
        100 <= code <= 999,
    ensures
        ({
            let s = status_text(code);
            &&& s.len() >= 4
            &&& '0' <= s[0] <= '9' && '0' <= s[1] <= '9' && '0' <= s[2] <= '9'
            &&& 100 * (s[0] as int - '0' as int) + 10 * (s[1] as int - '0' as int) + (s[2] as int
                - '0' as int) == code
            &&& s[3] == ' '
            &&& s.skip(4) == reason_phrase(code)
        }),
{
    assert(digit(code as int / 100) as int == '0' as int + code as int / 100);
    assert(digit(code as int / 10 % 10) as int == '0' as int + code as int / 10 % 10);
    assert(digit(code as int % 10) as int == '0' as int + code as int % 10);
    assert(status_text(code).skip(4) =~= reason_phrase(code));
}

// ---------------------------------------------------------------- what polishing gives

/// The first model that answers decides: with a text, however long or short, that text is used just as
/// it is; with nothing, the raw text stays.
pub proof fn law_the_first_answer_decides(
    text: Seq<char>,
    attempts: Seq<Result<Seq<char>, Seq<char>>>,
    i: int,
)
    requires
        0 <= i < attempts.len(),
        attempts[i] is Ok,
        forall|k: int| 0 <= k < i ==> #[trigger] attempts[k] is Err,
    ensures
        !blank(attempts[i]->Ok_0) ==> polish_step(text, attempts) == PolishStepView::Done(
            attempts[i]->Ok_0,
        ),
        blank(attempts[i]->Ok_0) ==> polish_step(text, attempts) == PolishStepView::Done(text),
{
    lemma_first_answer(text, attempts, i);
}

proof fn lemma_first_answer(
    text: Seq<char>,
    attempts: Seq<Result<Seq<char>, Seq<char>>>,
    i: int,
)
    requires
        0 <= i < attempts.len(),
        attempts[i] is Ok,
        forall|k: int| 0 <= k < i ==> #[trigger] attempts[k] is Err,
    ensures
        settled(text, attempts) == Some(
            if blank(attempts[i]->Ok_0) {
                text
            } else {
                attempts[i]->Ok_0
            },
        ),
    decreases i,
{
    if i > 0 {
        let rest = attempts.drop_first();
        assert(attempts[0] is Err);
        assert forall|k: int| 0 <= k < i - 1 implies #[trigger] rest[k] is Err by {
            assert(attempts[k + 1] is Err);
        }
        lemma_first_answer(text, rest, i - 1);
    }
}

/// The models are two: the faster one is asked first, the larger one where that fails.
pub proof fn law_the_faster_model_is_asked_first(text: Seq<char>, e: Seq<char>)
    ensures
        polish_step(text, Seq::empty()) == PolishStepView::Ask("openai/gpt-oss-20b"@),
        polish_step(text, seq![Err(e)]) == PolishStepView::Ask("openai/gpt-oss-120b"@),
        POLISH_MODELS@.len() == 2,
{
    lemma_settled(text, Seq::empty());
    let failed: Seq<Result<Seq<char>, Seq<char>>> = seq![Err(e)];
    lemma_settled(text, failed);
}

/// Quotation marks come off where they stand around a text, straight or angular, and one pair only;
/// the white space inside them goes too.
pub proof fn law_quotation_marks_come_off(inner: Seq<char>)
    ensures
        unwrapped(seq!['"'] + inner + seq!['"']) == trimmed(inner),
        unwrapped(seq!['«'] + inner + seq!['»']) == trimmed(inner),
{
    let straight = seq!['"'] + inner + seq!['"'];
    let angular = seq!['«'] + inner + seq!['»'];
    law_clean_stays(straight);
    law_clean_stays(angular);
    assert(straight.subrange(1, straight.len() - 1) =~= inner);
    assert(angular.subrange(1, angular.len() - 1) =~= inner);
}

/// A text that is not wrapped in a pair of quotation marks only loses the white space around it, and
/// that makes no difference to one that is wrapped.
pub proof fn law_other_texts_stay(s: Seq<char>)
    ensures
        ({
            let t = trimmed(s);
            let wrapped = t.len() >= 2 && ((t[0] == '"' && t[t.len() - 1] == '"') || (t[0] == '«'
                && t[t.len() - 1] == '»'));
            !wrapped ==> unwrapped(s) == t
        }),
        unwrapped(s) == unwrapped(trimmed(s)),
{
    law_trim_is_idempotent(s);
}

/// Results, attempts and steps are seen with all their texts.
pub proof fn law_results_are_seen_whole(
    r: Result<String, String>,
    attempts: Seq<Result<String, String>>,
    pairs: Seq<(String, String)>,
    i: int,
    model: &'static str,
    text: String,
)
    ensures
        r is Ok ==> result_text(r) == Ok::<Seq<char>, Seq<char>>(r->Ok_0@),
        r is Err ==> result_text(r) == Err::<Seq<char>, Seq<char>>(r->Err_0@),
        attempt_texts(attempts).len() == attempts.len(),
        0 <= i < attempts.len() ==> attempt_texts(attempts)[i] == result_text(attempts[i]),
        pair_texts(pairs).len() == pairs.len(),
        0 <= i < pairs.len() ==> pair_texts(pairs)[i] == (pairs[i].0@, pairs[i].1@),
        PolishStep::Ask(model)@ == PolishStepView::Ask(model@),
        PolishStep::Done(text)@ == PolishStepView::Done(text@),
{
}

} // verus!
