//! The two dialects of AI service: where to ask, what to send, what to read.
use crate::json;
use crate::json::{Json, JsonView, MemberView};
use vstd::prelude::*;
use vstd::string::StringExecFns;

verus! {

/// The kind of AI service that the hosts run.
#[derive(Debug, Clone, Copy, PartialEq, Eq, Structural)]
pub enum Interface {
    /// Ollama's own chat API.
    Ollama,
    /// The chat completions API of OpenAI, which llama.cpp and vLLM serve.
    Llamacpp,
}

/// The text content of an answer of Ollama: `message.content`.
pub open spec fn ollama_content(answer: JsonView) -> Option<Seq<char>> {
    match answer.get("message"@) {
        Some(message) => match message.get("content"@) {
            Some(content) => content.as_text(),
            None => None,
        },
        None => None,
    }
}

/// The first choice of a chat completion: `choices[0]`.
pub open spec fn first_choice(answer: JsonView) -> Option<JsonView> {
    match answer.get("choices"@) {
        Some(choices) => choices.first(),
        None => None,
    }
}

/// The text content of a chat completion: `choices[0].message.content`.
pub open spec fn completion_content(answer: JsonView) -> Option<Seq<char>> {
    match first_choice(answer) {
        Some(choice) => ollama_content(choice),
        None => None,
    }
}

/// Why a chat completion ended: `choices[0].finish_reason`.
pub open spec fn finish_reason(answer: JsonView) -> Option<Seq<char>> {
    match first_choice(answer) {
        Some(choice) => match choice.get("finish_reason"@) {
            Some(reason) => reason.as_text(),
            None => None,
        },
        None => None,
    }
}

/// The text content of an answer of the given kind of service.
pub open spec fn answer_content(interface: Interface, answer: JsonView) -> Option<Seq<char>> {
    match interface {
        Interface::Ollama => ollama_content(answer),
        Interface::Llamacpp => completion_content(answer),
    }
}

/// The path that is asked on a host.
pub open spec fn endpoint_path(interface: Interface) -> Seq<char> {
    match interface {
        Interface::Ollama => "/api/chat"@,
        Interface::Llamacpp => "/v1/chat/completions"@,
    }
}

/// A chat request of a single message, for Ollama: the image stands beside the prompt.
pub open spec fn ollama_body(
    model_name: Seq<char>,
    prompt: Seq<char>,
    base64_image: Seq<char>,
) -> JsonView {
    let message = json::object().with("role"@, JsonView::Text("user"@)).with(
        "content"@,
        JsonView::Text(prompt),
    ).with("images"@, json::array().and(JsonView::Text(base64_image)));
    json::object().with("model"@, JsonView::Text(model_name)).with("messages"@, json::array().and(message)).with(
        "stream"@,
        JsonView::Bool(false),
    )
}

/// A part of a message that is a text.
pub open spec fn text_part(text: Seq<char>) -> JsonView {
    json::object().with("type"@, JsonView::Text("text"@)).with("text"@, JsonView::Text(text))
}

/// A part of a message that is a medium, given by a URL; `kind` is the name of the part.
pub open spec fn url_part(kind: Seq<char>, url: Seq<char>) -> JsonView {
    json::object().with("type"@, JsonView::Text(kind)).with(
        kind,
        json::object().with("url"@, JsonView::Text(url)),
    )
}

/// The list of a single message of the user, made of two parts.
pub open spec fn user_messages(first: JsonView, second: JsonView) -> JsonView {
    json::array().and(
        json::object().with("role"@, JsonView::Text("user"@)).with(
            "content"@,
            json::array().and(first).and(second),
        ),
    )
}

/// A chat completion request on an image: the prompt, then the image as a data URL.
pub open spec fn completion_body(
    model_name: Seq<char>,
    prompt: Seq<char>,
    base64_image: Seq<char>,
) -> JsonView {
    let image = url_part("image_url"@, "data:image/jpeg;base64,"@ + base64_image);
    json::object().with("model"@, JsonView::Text(model_name)).with(
        "messages"@,
        user_messages(text_part(prompt), image),
    ).with("stream"@, JsonView::Bool(false))
}

/// The request on an image, for the given kind of service.
pub open spec fn image_body(
    interface: Interface,
    model_name: Seq<char>,
    prompt: Seq<char>,
    base64_image: Seq<char>,
) -> JsonView {
    match interface {
        Interface::Ollama => ollama_body(model_name, prompt, base64_image),
        Interface::Llamacpp => completion_body(model_name, prompt, base64_image),
    }
}

/// The request on a video clip: the clip as a data URL, then the prompt; the
/// answer is text of at most 512 tokens, from 32 frames and, where there is
/// sound, from the sound too.
pub open spec fn video_body(
    model_name: Seq<char>,
    prompt: Seq<char>,
    base64_clip: Seq<char>,
    has_audio: bool,
) -> JsonView {
    let clip = url_part("video_url"@, "data:video/mp4;base64,"@ + base64_clip);
    let video = json::object().with("video_backend"@, JsonView::Text("opencv"@)).with(
        "backend"@,
        JsonView::Text("pyav"@),
    ).with("num_frames"@, JsonView::Number("32"@)).with("fps"@, JsonView::Number("-1"@));
    json::object().with("model"@, JsonView::Text(model_name)).with(
        "messages"@,
        user_messages(clip, text_part(prompt)),
    ).with("modalities"@, json::array().and(JsonView::Text("text"@))).with(
        "media_io_kwargs"@,
        json::object().with("video"@, video),
    ).with(
        "mm_processor_kwargs"@,
        json::object().with("use_audio_in_video"@, JsonView::Bool(has_audio)),
    ).with("max_tokens"@, JsonView::Number("512"@)).with("stream"@, JsonView::Bool(false))
}

fn text_part_json(text: &str) -> (part: Json)
    ensures
        part@ == text_part(text@),
{
    Json::object().with("type", Json::text("text")).with("text", Json::text(text))
}

fn url_part_json(kind: &str, scheme: &str, base64: &str) -> (part: Json)
    ensures
        part@ == url_part(kind@, scheme@ + base64@),
{
    let mut url = scheme.to_owned();
    url.append(base64);
    Json::object().with("type", Json::text(kind)).with(
        kind,
        Json::object().with("url", Json::Text(url)),
    )
}

fn user_messages_json(first: Json, second: Json) -> (messages: Json)
    ensures
        messages@ == user_messages(first@, second@),
{
    let content = Json::array().and(first).and(second);
    Json::array().and(Json::object().with("role", Json::text("user")).with("content", content))
}

/// Builds the request on a video clip.
pub fn build_video_body(model_name: &str, prompt: &str, base64_clip: &str, has_audio: bool) -> (body:
    Json)
    ensures
        body@ == video_body(model_name@, prompt@, base64_clip@, has_audio),
{
    let clip = url_part_json("video_url", "data:video/mp4;base64,", base64_clip);
    let messages = user_messages_json(clip, text_part_json(prompt));
    let video = Json::object().with("video_backend", Json::text("opencv")).with(
        "backend",
        Json::text("pyav"),
    ).with("num_frames", Json::Number("32".to_owned())).with("fps", Json::Number("-1".to_owned()));
    Json::object().with("model", Json::text(model_name)).with("messages", messages).with(
        "modalities",
        Json::array().and(Json::text("text")),
    ).with("media_io_kwargs", Json::object().with("video", video)).with(
        "mm_processor_kwargs",
        Json::object().with("use_audio_in_video", Json::Bool(has_audio)),
    ).with("max_tokens", Json::Number("512".to_owned())).with("stream", Json::Bool(false))
}

/// Why a chat completion ended.
pub fn response_finish_reason(json_value: &Json) -> (reason: Option<&str>)
    ensures
        json::str_option_view(reason) == finish_reason(json_value@),
{
    let choices = json_value.get("choices")?;
    let choice = choices.first()?;
    let reason = choice.get("finish_reason")?;
    reason.as_text()
}

impl Interface {
    /// Returns the API endpoint path for the given interface.
    pub fn endpoint(self) -> (path: &'static str)
        ensures
            path@ == endpoint_path(self),
    {
        match self {
            Interface::Ollama => "/api/chat",
            Interface::Llamacpp => "/v1/chat/completions",
        }
    }

    /// Returns `true` if the interface supports Bearer token authentication.
    pub fn supports_bearer_auth(self) -> (supported: bool)
        ensures
            supported == (self == Interface::Llamacpp),
    {
        match self {
            Interface::Ollama => false,
            Interface::Llamacpp => true,
        }
    }

    /// Extracts the content text of an answer of the given interface.
    pub fn parse_response<'a>(self, json_value: &'a Json) -> (content: Option<&'a str>)
        ensures
            json::str_option_view(content) == answer_content(self, json_value@),
    {
        let holder = match self {
            Interface::Ollama => json_value,
            Interface::Llamacpp => {
                let choices = json_value.get("choices")?;
                choices.first()?
            },
        };
        let message = holder.get("message")?;
        let content = message.get("content")?;
        content.as_text()
    }

    /// Builds the JSON request body specific to the AI service interface.
    pub fn build_request_body(self, model_name: &str, prompt: &str, base64_image: &str) -> (body:
        Json)
        ensures
            body@ == image_body(self, model_name@, prompt@, base64_image@),
    {
        let messages = match self {
            Interface::Ollama => Json::array().and(
                Json::object().with("role", Json::text("user")).with(
                    "content",
                    Json::text(prompt),
                ).with("images", Json::array().and(Json::text(base64_image))),
            ),
            Interface::Llamacpp => user_messages_json(
                text_part_json(prompt),
                url_part_json("image_url", "data:image/jpeg;base64,", base64_image),
            ),
        };
        Json::object().with("model", Json::text(model_name)).with("messages", messages).with(
            "stream",
            Json::Bool(false),
        )
    }
}

/// Where the content of an answer stands: Ollama's in its message, that of a chat
/// completion in the message of the first choice. It has to be a text.
pub proof fn law_content_is_read_where_it_stands(answer: JsonView)
    ensures
        answer_content(Interface::Ollama, answer) == match answer.get("message"@) {
            Some(message) => match message.get("content"@) {
                Some(JsonView::Text(t)) => Some(t),
                _ => None,
            },
            None => None,
        },
        answer_content(Interface::Llamacpp, answer) == match answer.get("choices"@) {
            Some(JsonView::Array(choices)) => if choices.len() > 0 {
                match choices[0].get("message"@) {
                    Some(message) => match message.get("content"@) {
                        Some(JsonView::Text(t)) => Some(t),
                        _ => None,
                    },
                    None => None,
                }
            } else {
                None
            },
            _ => None,
        },
        finish_reason(answer) == match answer.get("choices"@) {
            Some(JsonView::Array(choices)) => if choices.len() > 0 {
                match choices[0].get("finish_reason"@) {
                    Some(JsonView::Text(t)) => Some(t),
                    _ => None,
                }
            } else {
                None
            },
            _ => None,
        },
{
}

/// A member of an object.
pub open spec fn member(name: Seq<char>, value: JsonView) -> MemberView {
    MemberView { name, value }
}

proof fn lemma_objects(
    a: Seq<char>,
    x: JsonView,
    b: Seq<char>,
    y: JsonView,
    c: Seq<char>,
    z: JsonView,
)
    ensures
        json::object().with(a, x) == JsonView::Object(seq![member(a, x)]),
        json::object().with(a, x).with(b, y) == JsonView::Object(seq![member(a, x), member(b, y)]),
        json::object().with(a, x).with(b, y).with(c, z) == JsonView::Object(
            seq![member(a, x), member(b, y), member(c, z)],
        ),
        json::array().and(x) == JsonView::Array(seq![x]),
        json::array().and(x).and(y) == JsonView::Array(seq![x, y]),
{
    assert(json::object().with(a, x)->Object_0 =~= seq![member(a, x)]);
    assert(json::object().with(a, x).with(b, y)->Object_0 =~= seq![member(a, x), member(b, y)]);
    assert(json::object().with(a, x).with(b, y).with(c, z)->Object_0 =~= seq![
        member(a, x),
        member(b, y),
        member(c, z),
    ]);
    assert(json::array().and(x)->Array_0 =~= seq![x]);
    assert(json::array().and(x).and(y)->Array_0 =~= seq![x, y]);
}

/// A request on an image holds the model, one message of the user with the prompt
/// and the whole image, and asks for an answer in one piece: for Ollama the image
/// stands beside the prompt, otherwise after it as a JPEG data URL.
pub proof fn law_image_requests_hold_prompt_and_image(
    model_name: Seq<char>,
    prompt: Seq<char>,
    base64_image: Seq<char>,
)
    ensures
        image_body(Interface::Ollama, model_name, prompt, base64_image) == JsonView::Object(
            seq![
                member("model"@, JsonView::Text(model_name)),
                member(
                    "messages"@,
                    JsonView::Array(
                        seq![
                            JsonView::Object(
                                seq![
                                    member("role"@, JsonView::Text("user"@)),
                                    member("content"@, JsonView::Text(prompt)),
                                    member(
                                        "images"@,
                                        JsonView::Array(seq![JsonView::Text(base64_image)]),
                                    ),
                                ],
                            ),
                        ],
                    ),
                ),
                member("stream"@, JsonView::Bool(false)),
            ],
        ),
        image_body(Interface::Llamacpp, model_name, prompt, base64_image) == JsonView::Object(
            seq![
                member("model"@, JsonView::Text(model_name)),
                member(
                    "messages"@,
                    JsonView::Array(
                        seq![
                            JsonView::Object(
                                seq![
                                    member("role"@, JsonView::Text("user"@)),
                                    member(
                                        "content"@,
                                        JsonView::Array(
                                            seq![
                                                JsonView::Object(
                                                    seq![
                                                        member("type"@, JsonView::Text("text"@)),
                                                        member("text"@, JsonView::Text(prompt)),
                                                    ],
                                                ),
                                                JsonView::Object(
                                                    seq![
                                                        member(
                                                            "type"@,
                                                            JsonView::Text("image_url"@),
                                                        ),
                                                        member(
                                                            "image_url"@,
                                                            JsonView::Object(
                                                                seq![
                                                                    member(
                                                                        "url"@,
                                                                        JsonView::Text(
                                                                            "data:image/jpeg;base64,"@
                                                                                + base64_image,
                                                                        ),
                                                                    ),
                                                                ],
                                                            ),
                                                        ),
                                                    ],
                                                ),
                                            ],
                                        ),
                                    ),
                                ],
                            ),
                        ],
                    ),
                ),
                member("stream"@, JsonView::Bool(false)),
            ],
        ),
{
    let null = JsonView::Null;
    let image = JsonView::Text(base64_image);
    let user = JsonView::Text("user"@);
    let said = JsonView::Text(prompt);
    lemma_objects("x"@, image, "x"@, null, "x"@, null);
    let images = JsonView::Array(seq![image]);
    lemma_objects("role"@, user, "content"@, said, "images"@, images);
    let message = JsonView::Object(
        seq![member("role"@, user), member("content"@, said), member("images"@, images)],
    );
    lemma_objects("x"@, message, "x"@, null, "x"@, null);
    lemma_objects(
        "model"@,
        JsonView::Text(model_name),
        "messages"@,
        JsonView::Array(seq![message]),
        "stream"@,
        JsonView::Bool(false),
    );
    let url = JsonView::Text("data:image/jpeg;base64,"@ + base64_image);
    lemma_objects("url"@, url, "x"@, null, "x"@, null);
    let holder = JsonView::Object(seq![member("url"@, url)]);
    lemma_objects("type"@, JsonView::Text("image_url"@), "image_url"@, holder, "x"@, null);
    lemma_objects("type"@, JsonView::Text("text"@), "text"@, said, "x"@, null);
    lemma_user_messages(text_part(prompt), url_part("image_url"@, url->Text_0));
    lemma_objects(
        "model"@,
        JsonView::Text(model_name),
        "messages"@,
        user_messages(text_part(prompt), url_part("image_url"@, url->Text_0)),
        "stream"@,
        JsonView::Bool(false),
    );
}

proof fn lemma_user_messages(first: JsonView, second: JsonView)
    ensures
        user_messages(first, second) == JsonView::Array(
            seq![
                JsonView::Object(
                    seq![
                        member("role"@, JsonView::Text("user"@)),
                        member("content"@, JsonView::Array(seq![first, second])),
                    ],
                ),
            ],
        ),
{
    let null = JsonView::Null;
    lemma_objects("x"@, first, "x"@, second, "x"@, null);
    let parts = JsonView::Array(seq![first, second]);
    lemma_objects("role"@, JsonView::Text("user"@), "content"@, parts, "x"@, null);
    let message = JsonView::Object(
        seq![member("role"@, JsonView::Text("user"@)), member("content"@, parts)],
    );
    lemma_objects("x"@, message, "x"@, null, "x"@, null);
}

/// A request on a clip holds the model, one message of the user with the whole
/// clip as an MP4 data URL and then the prompt, and asks for a text of at most 512
/// tokens, in one piece, from 32 frames; the sound is used exactly if there is some.
pub proof fn law_video_requests_hold_clip_and_prompt(
    model_name: Seq<char>,
    prompt: Seq<char>,
    base64_clip: Seq<char>,
    has_audio: bool,
)
    ensures
        video_body(model_name, prompt, base64_clip, has_audio) == JsonView::Object(
            seq![
                member("model"@, JsonView::Text(model_name)),
                member(
                    "messages"@,
                    JsonView::Array(
                        seq![
                            JsonView::Object(
                                seq![
                                    member("role"@, JsonView::Text("user"@)),
                                    member(
                                        "content"@,
                                        JsonView::Array(
                                            seq![
                                                JsonView::Object(
                                                    seq![
                                                        member(
                                                            "type"@,
                                                            JsonView::Text("video_url"@),
                                                        ),
                                                        member(
                                                            "video_url"@,
                                                            JsonView::Object(
                                                                seq![
                                                                    member(
                                                                        "url"@,
                                                                        JsonView::Text(
                                                                            "data:video/mp4;base64,"@
                                                                                + base64_clip,
                                                                        ),
                                                                    ),
                                                                ],
                                                            ),
                                                        ),
                                                    ],
                                                ),
                                                JsonView::Object(
                                                    seq![
                                                        member("type"@, JsonView::Text("text"@)),
                                                        member("text"@, JsonView::Text(prompt)),
                                                    ],
                                                ),
                                            ],
                                        ),
                                    ),
                                ],
                            ),
                        ],
                    ),
                ),
                member("modalities"@, JsonView::Array(seq![JsonView::Text("text"@)])),
                member(
                    "media_io_kwargs"@,
                    JsonView::Object(
                        seq![
                            member(
                                "video"@,
                                JsonView::Object(
                                    seq![
                                        member("video_backend"@, JsonView::Text("opencv"@)),
                                        member("backend"@, JsonView::Text("pyav"@)),
                                        member("num_frames"@, JsonView::Number("32"@)),
                                        member("fps"@, JsonView::Number("-1"@)),
                                    ],
                                ),
                            ),
                        ],
                    ),
                ),
                member(
                    "mm_processor_kwargs"@,
                    JsonView::Object(
                        seq![member("use_audio_in_video"@, JsonView::Bool(has_audio))],
                    ),
                ),
                member("max_tokens"@, JsonView::Number("512"@)),
                member("stream"@, JsonView::Bool(false)),
            ],
        ),
{
    let null = JsonView::Null;
    let url = JsonView::Text("data:video/mp4;base64,"@ + base64_clip);
    lemma_objects("url"@, url, "x"@, null, "x"@, null);
    let holder = JsonView::Object(seq![member("url"@, url)]);
    lemma_objects("type"@, JsonView::Text("video_url"@), "video_url"@, holder, "x"@, null);
    lemma_objects("type"@, JsonView::Text("text"@), "text"@, JsonView::Text(prompt), "x"@, null);
    lemma_user_messages(url_part("video_url"@, url->Text_0), text_part(prompt));
    lemma_objects("x"@, JsonView::Text("text"@), "x"@, null, "x"@, null);
    let video = json::object().with("video_backend"@, JsonView::Text("opencv"@)).with(
        "backend"@,
        JsonView::Text("pyav"@),
    ).with("num_frames"@, JsonView::Number("32"@)).with("fps"@, JsonView::Number("-1"@));
    let settings = seq![
        member("video_backend"@, JsonView::Text("opencv"@)),
        member("backend"@, JsonView::Text("pyav"@)),
        member("num_frames"@, JsonView::Number("32"@)),
        member("fps"@, JsonView::Number("-1"@)),
    ];
    assert(video->Object_0 =~= settings);
    lemma_objects("video"@, video, "x"@, null, "x"@, null);
    lemma_objects("use_audio_in_video"@, JsonView::Bool(has_audio), "x"@, null, "x"@, null);
    let body = video_body(model_name, prompt, base64_clip, has_audio);
    assert(body->Object_0 =~= seq![
        member("model"@, JsonView::Text(model_name)),
        member(
            "messages"@,
            user_messages(url_part("video_url"@, url->Text_0), text_part(prompt)),
        ),
        member("modalities"@, json::array().and(JsonView::Text("text"@))),
        member("media_io_kwargs"@, json::object().with("video"@, video)),
        member(
            "mm_processor_kwargs"@,
            json::object().with("use_audio_in_video"@, JsonView::Bool(has_audio)),
        ),
        member("max_tokens"@, JsonView::Number("512"@)),
        member("stream"@, JsonView::Bool(false)),
    ]);
}

} // verus!
