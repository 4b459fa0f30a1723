# gemini_codec

A verified codec for the JSON bodies of Gemini's `generateContent`: it reads requests and
responses into a provider-neutral model and writes that model back.

- `src/gemini/` is the codec. `decode` and `encode` read and write parts, `ids` pairs function
  calls with their responses, `media` splits data URIs, `schema` and `tools` map schemas, tools
  and tool choice, `usage` and `reason` map token counts and finish reasons, and
  `decode_request`, `encode_request` and `response` put bodies together. `codec` offers all of
  it as a `FormatCodec`.
- `src/llm.rs`, `src/policy.rs`, `src/error.rs`, `src/format.rs` and `src/codecs.rs` are the
  model, the policies, the errors and the interface that the codec of every format offers.
  `src/util.rs` and `src/common.rs` hold what such codecs share.
- `src/json.rs` is the JSON value that the library works on, `src/wire.rs` connects it to
  `serde_json`, `src/number.rs` carries numbers in floating point, and `src/text.rs` works on
  texts.
- `src/laws/` holds what is proved of the codec as a whole: what survives where a body is read
  and written again, what is read back of what was written, and how calls and responses pair.
- `app/` is the codec on `serde_json` values and native floating-point numbers.

Every contract is stated over views: a text is a sequence of characters, an object a map, and
the result of reading or writing a body is a function of its view and of the policy. What
`serde_json` and the standard library do is stated where it is called and believed there.
