use acfunlive_neotool::error::{Error, ValidationError};
use acfunlive_neotool::session::Delivery;
use acfunlive_neotool::xunfei::{authorization, RFC2822_FIRST, RFC2822_LAST};
use acfunlive_neotool::{spark, tts};

const SIGNED_AT: i64 = 1683254619;

fn chat_request() -> spark::SparkRequest {
    spark::SparkRequest {
        app_id: String::from("app"),
        api_secret: String::from("SECRET"),
        api_key: String::from("KEY"),
        uid: None,
        temperature: Some(0.25f32.to_bits()),
        max_tokens: None,
        top_k: None,
        chat_id: None,
        history: None,
        content: String::from("hello"),
    }
}

fn speech_request() -> tts::TtsRequest {
    tts::TtsRequest {
        app_id: String::from("app"),
        api_secret: String::from("SECRET"),
        api_key: String::from("KEY"),
        aue: tts::Aue::Raw,
        auf: None,
        vcn: String::from("xiaoyan"),
        speed: None,
        volume: None,
        pitch: None,
        bgs: None,
        reg: None,
        rdn: None,
        text: String::from("hello"),
        get_all_once: true,
    }
}

#[test]
fn chat_request_is_built_and_its_endpoint_signed() {
    let prepared = spark::prepare(chat_request(), SIGNED_AT).unwrap().unwrap();
    let signed = authorization(spark::URL, "SECRET", "KEY", SIGNED_AT).unwrap();
    assert_eq!(prepared.url, signed);
    assert!(prepared
        .url
        .as_str()
        .starts_with("wss://spark-api.xf-yun.com/v3.1/chat?authorization="));
    assert!(prepared
        .url
        .as_str()
        .ends_with("&date=Fri%2C+05+May+2023+02%3A43%3A39+%2B0000&host=spark-api.xf-yun.com"));
    assert_eq!(prepared.request, spark::Request::try_from(chat_request()).unwrap());
    assert_eq!(prepared.request.payload.message.text.len(), 1);
}

#[test]
fn speech_request_is_built_and_its_endpoint_signed() {
    let prepared = tts::prepare(speech_request(), SIGNED_AT).unwrap().unwrap();
    let signed = authorization(tts::URL, "SECRET", "KEY", SIGNED_AT).unwrap();
    assert_eq!(prepared.url, signed);
    assert_eq!(prepared.url.host(), "tts-api.xfyun.cn");
    assert_eq!(prepared.request, tts::Request::try_from(speech_request()).unwrap());
    assert_eq!(prepared.request.data.text, "aGVsbG8=");
    assert_eq!(prepared.delivery, Delivery::Batched);
    let mut piecewise = speech_request();
    piecewise.get_all_once = false;
    assert_eq!(
        tts::prepare(piecewise, SIGNED_AT).unwrap().unwrap().delivery,
        Delivery::Incremental
    );
}

#[test]
fn a_broken_rule_is_reported_and_nothing_is_signed() {
    let mut asked = chat_request();
    asked.top_k = Some(7);
    assert_eq!(
        spark::prepare(asked.clone(), SIGNED_AT),
        Some(Err(Error::Validation(ValidationError::TopKOutOfRange)))
    );
    // The rules come before the time: an instant that cannot be signed does not hide them.
    assert_eq!(
        spark::prepare(asked, i64::MAX),
        Some(Err(Error::Validation(ValidationError::TopKOutOfRange)))
    );
    let mut asked = speech_request();
    asked.pitch = Some(101);
    assert_eq!(
        tts::prepare(asked.clone(), SIGNED_AT),
        Some(Err(Error::Validation(ValidationError::PitchOutOfRange)))
    );
    assert_eq!(
        tts::prepare(asked, i64::MIN),
        Some(Err(Error::Validation(ValidationError::PitchOutOfRange)))
    );
}

#[test]
fn an_instant_without_a_date_is_a_format_failure() {
    for at in [RFC2822_FIRST - 1, RFC2822_LAST + 1] {
        assert_eq!(spark::prepare(chat_request(), at), Some(Err(Error::Format)));
        assert_eq!(tts::prepare(speech_request(), at), Some(Err(Error::Format)));
    }
    for at in [RFC2822_FIRST, RFC2822_LAST] {
        assert!(matches!(spark::prepare(chat_request(), at), Some(Ok(_))));
        assert!(matches!(tts::prepare(speech_request(), at), Some(Ok(_))));
    }
}

#[test]
fn validation_alone_changes_nothing() {
    let asked = chat_request();
    let kept = asked.clone();
    assert_eq!(asked.validate(), Ok(()));
    assert_eq!(asked, kept);
    let mut asked = chat_request();
    asked.max_tokens = Some(0);
    let kept = asked.clone();
    assert_eq!(asked.validate(), Err(ValidationError::MaxTokensOutOfRange));
    assert_eq!(asked, kept);
    let mut asked = speech_request();
    asked.vcn = String::new();
    let kept = asked.clone();
    assert_eq!(asked.validate(), Err(ValidationError::EmptyVoice));
    assert_eq!(asked, kept);
    assert_eq!(speech_request().validate(), Ok(()));
}
