use riff::groq::{
    explain_error, is_hallucination, is_noise, known_failure, other_failure, polish,
    polish_request, screen, strip_wrapping_quotes, transcribe, transcription_request, try_polish,
    Exchange, PolishStep, Status, ASR_PROMPT, POLISH_MODELS, POLISH_SYSTEM,
};
use riff::json::{string_at, Lookup};

fn status(code: u16) -> Status {
    Status::new(code).unwrap()
}

fn answered(code: u16, body: &str) -> Exchange {
    Exchange::Answered { status: status(code), body: body.to_string() }
}

fn text(s: &str) -> Result<String, String> {
    Ok(s.to_string())
}

fn err(s: &str) -> Result<String, String> {
    Err(s.to_string())
}

#[test]
fn statuses_have_three_digits() {
    assert!(Status::new(99).is_none());
    assert!(Status::new(1000).is_none());
    assert_eq!(status(100).code(), 100);
    assert_eq!(status(999).code(), 999);
}

#[test]
fn known_failures_are_explained() {
    assert_eq!(explain_error(&status(401), "x"), "API key de Groq inválida. Revísala en Ajustes.");
    assert_eq!(explain_error(&status(413), "x"), "La grabación es demasiado larga.");
    assert_eq!(explain_error(&status(429), "x"), "Límite de Groq alcanzado. Espera un momento.");
    for code in [500, 503, 599] {
        assert_eq!(explain_error(&status(code), "x"), "Groq no está respondiendo. Inténtalo de nuevo.");
    }
    assert!(known_failure(499).is_none());
    assert!(known_failure(600).is_none());
}

#[test]
fn other_failures_quote_the_message() {
    assert_eq!(
        explain_error(&status(400), r#"{"error":{"message":"bad model","type":"x"}}"#),
        "Groq respondió 400 Bad Request: bad model"
    );
    assert_eq!(
        explain_error(&status(404), "<html>"),
        "Groq respondió 404 Not Found: <html>"
    );
    assert_eq!(
        explain_error(&status(799), ""),
        "Groq respondió 799 <unknown status code>: "
    );
    assert_eq!(
        other_failure("400 Bad Request", Lookup::Found("m".to_string()), "b"),
        "Groq respondió 400 Bad Request: m"
    );
    assert_eq!(
        other_failure("400 Bad Request", Lookup::NoDocument, "b"),
        "Groq respondió 400 Bad Request: b"
    );
}

#[test]
fn raw_json_is_not_shown() {
    for body in [
        r#"{"detail":"x"}"#,
        r#"{"error":{"message":7}}"#,
        r#"{"error":"x"}"#,
        "[1, 2]",
        "null",
        r#""text""#,
    ] {
        assert_eq!(explain_error(&status(404), body), "Groq respondió 404 Not Found", "{}", body);
    }
    assert_eq!(
        other_failure("400 Bad Request", Lookup::Absent, "b"),
        "Groq respondió 400 Bad Request"
    );
}

#[test]
fn strings_are_read_out_of_documents() {
    let body = r#"{"error": {"message": "ñ\ná"}, "other": "x"}"#;
    assert!(matches!(string_at(body, "error", "message"), Lookup::Found(s) if s == "ñ\ná"));
    assert!(matches!(string_at(body, "error", "code"), Lookup::Absent));
    assert!(matches!(string_at(body, "other", "message"), Lookup::Absent));
    assert!(matches!(string_at(body, "missing", "message"), Lookup::Absent));
    assert!(matches!(string_at("not json", "error", "message"), Lookup::NoDocument));
    assert!(matches!(string_at("", "error", "message"), Lookup::NoDocument));
    assert!(matches!(string_at("[]", "error", "message"), Lookup::Absent));
    assert!(matches!(string_at(r#""text""#, "error", "message"), Lookup::Absent));
}

#[test]
fn text_around_noise_does_not_hide_it() {
    for before in ["", "Hola. ", "¿"] {
        for behind in ["", " Adiós.", "s"] {
            for marker in [
                "amara.org",
                "subtítulos realizados por",
                "suscríbete al canal",
                "gracias por ver el video",
                "gracias por ver el vídeo",
            ] {
                assert!(is_noise(&format!("{before}{marker}{behind}")));
            }
        }
    }
    for behind in ["", ".", " y otros", " por favor"] {
        assert!(is_noise(&format!("subtítulos por juan{behind}")));
    }
}

#[test]
fn speech_about_subtitles_passes() {
    for text in [
        "Activa los subtítulos por favor",
        "Pon los subtítulos por defecto",
        "Subtítulos por favor.",
        "Subtítulos por defecto, gracias",
        "Subtítulos por ejemplo",
        "Subtítulos porque no oigo bien",
        "Subtítulos por si acaso",
        "Quiero subtítulos por capítulos",
    ] {
        assert!(!is_hallucination(text), "{}", text);
        assert_eq!(transcribe(answered(200, "{}"), Ok(text.to_string())), Ok(text.to_string()));
    }
    for text in [
        "Subtítulos por X",
        "SUBTÍTULOS POR X",
        "Subtítulos por",
        "Subtítulos por: X",
        "Subtítulos por Silvia",
        "Subtítulos por Lola",
        "Subtítulos por la comunidad de Amara.org",
    ] {
        assert!(is_hallucination(text), "{}", text);
    }
}

#[test]
fn made_up_transcripts_are_recognised() {
    assert!(is_hallucination("Subtítulos realizados por la comunidad de Amara.org"));
    assert!(is_hallucination("¡SUSCRÍBETE AL CANAL!"));
    assert!(is_hallucination("Gracias por ver el video."));
    assert!(is_hallucination("Gracias por ver el vídeo"));
    assert!(is_hallucination("Subtítulos por X"));
    assert!(!is_hallucination("Gracias."));
    assert!(!is_hallucination("Los subtítulos están bien"));
    assert!(!is_hallucination(""));
    assert!(is_noise("amara.org"));
    assert!(!is_noise("AMARA.ORG"));
}

#[test]
fn screening_drops_noise() {
    assert_eq!(screen("Amara.org", "amara.org"), "");
    assert_eq!(screen("Hola", "hola"), "Hola");
}

#[test]
fn quotation_marks_are_stripped() {
    assert_eq!(strip_wrapping_quotes(" \"Hola.\" "), "Hola.");
    assert_eq!(strip_wrapping_quotes("« Hola. »"), "Hola.");
    assert_eq!(strip_wrapping_quotes("\"Hola"), "\"Hola");
    assert_eq!(strip_wrapping_quotes("\"Hola»"), "\"Hola»");
    assert_eq!(strip_wrapping_quotes("\""), "\"");
    assert_eq!(strip_wrapping_quotes("\"\""), "");
    assert_eq!(strip_wrapping_quotes("\"«a»\""), "«a»");
    assert_eq!(strip_wrapping_quotes("Dijo «sí»"), "Dijo «sí»");
    assert_eq!(strip_wrapping_quotes("  "), "");
}

#[test]
fn transcripts_are_taken_out_of_answers() {
    assert_eq!(transcribe(answered(200, "{}"), text("  Hola. ")), text("Hola."));
    assert_eq!(transcribe(answered(299, "{}"), text("Amara.org")), text(""));
    assert_eq!(
        transcribe(answered(200, "{}"), err("missing field")),
        err("respuesta inesperada de Groq: missing field")
    );
    assert_eq!(
        transcribe(answered(401, "{}"), text("Hola.")),
        err("API key de Groq inválida. Revísala en Ajustes.")
    );
    assert_eq!(
        transcribe(answered(302, "go"), text("Hola.")),
        err("Groq respondió 302 Found: go")
    );
    assert_eq!(
        transcribe(Exchange::Unreachable("dns".to_string()), text("x")),
        err("no se pudo contactar con Groq: dns")
    );
    assert_eq!(transcribe(Exchange::Failed("mime".to_string()), text("x")), err("mime"));
}

#[test]
fn polished_texts_are_taken_out_of_answers() {
    let choices = |all: &[&str]| -> Result<Vec<String>, String> {
        Ok(all.iter().map(|s| s.to_string()).collect())
    };
    assert_eq!(try_polish(answered(200, ""), choices(&[" \"Hola.\" ", "no"])), text("Hola."));
    assert_eq!(try_polish(answered(200, ""), choices(&[])), text(""));
    assert_eq!(try_polish(answered(200, ""), Err("eof".to_string())), err("eof"));
    assert_eq!(
        try_polish(answered(429, ""), choices(&["Hola."])),
        err("Límite de Groq alcanzado. Espera un momento.")
    );
    assert_eq!(try_polish(Exchange::Unreachable("dns".to_string()), choices(&[])), err("dns"));
    assert_eq!(try_polish(Exchange::Failed("tls".to_string()), choices(&[])), err("tls"));
}

fn step(text: &str, attempts: Vec<Result<String, String>>) -> (bool, String) {
    match polish(text, &attempts) {
        PolishStep::Ask(model) => (false, model.to_string()),
        PolishStep::Done(result) => (true, result),
    }
}

#[test]
fn polishing_never_loses_the_text() {
    assert_eq!(step("hola", vec![]), (false, POLISH_MODELS[0].to_string()));
    assert_eq!(step("hola", vec![text("Hola.")]), (true, "Hola.".to_string()));
    assert_eq!(step("hola", vec![text("  ")]), (true, "hola".to_string()));
    assert_eq!(step("hola", vec![err("x")]), (false, "openai/gpt-oss-120b".to_string()));
    assert_eq!(step("hola", vec![err("x"), text("Hola!")]), (true, "Hola!".to_string()));
    assert_eq!(step("hola", vec![err("x"), text("")]), (true, "hola".to_string()));
    assert_eq!(step("hola", vec![err("x"), err("y")]), (true, "hola".to_string()));
}

#[test]
fn the_form_for_a_transcription() {
    let r = transcription_request("SECRET", vec![1, 2, 3], "es");
    assert_eq!(r.url, "https://api.groq.com/openai/v1/audio/transcriptions");
    assert_eq!(r.bearer, "SECRET");
    assert_eq!(r.timeout_secs, 30);
    assert_eq!((r.file_field.as_str(), r.file_name.as_str(), r.mime.as_str()), ("file", "audio.wav", "audio/wav"));
    assert_eq!(r.wav, vec![1, 2, 3]);
    let fields: Vec<(&str, &str)> = r.fields.iter().map(|(k, v)| (k.as_str(), v.as_str())).collect();
    assert_eq!(
        fields,
        vec![
            ("model", "whisper-large-v3"),
            ("language", "es"),
            ("response_format", "json"),
            ("temperature", "0"),
            ("prompt", ASR_PROMPT),
        ]
    );
    assert!(ASR_PROMPT.ends_with("esto es una prueba de dictado; sí, exactamente. Entonces, ¿lo dejamos así?"));
}

#[test]
fn the_conversation_for_polishing() {
    let r = polish_request("SECRET", "hola", POLISH_MODELS[0]);
    assert_eq!(r.url, "https://api.groq.com/openai/v1/chat/completions");
    assert_eq!((r.bearer.as_str(), r.timeout_secs), ("SECRET", 8));
    assert_eq!((r.model.as_str(), r.temperature, r.max_tokens), ("openai/gpt-oss-20b", 0, 2048));
    assert_eq!(
        r.messages,
        vec![
            ("system".to_string(), POLISH_SYSTEM.to_string()),
            ("user".to_string(), "hola".to_string()),
        ]
    );
    assert_eq!(POLISH_SYSTEM.lines().count(), 11);
}
