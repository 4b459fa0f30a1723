//! Names of fields differ.
use vstd::prelude::*;

verus! {

/// The names of the fields of parts differ.
pub proof fn lemma_part_keys()
    ensures
        "text"@ != "thought"@,
        "text"@ != "thoughtSignature"@,
        "thought"@ != "thoughtSignature"@,
        "text"@ != "functionCall"@,
        "text"@ != "functionResponse"@,
        "text"@ != "inlineData"@,
        "text"@ != "fileData"@,
        "functionCall"@ != "functionResponse"@,
        "functionCall"@ != "inlineData"@,
        "functionCall"@ != "fileData"@,
        "functionResponse"@ != "inlineData"@,
        "functionResponse"@ != "fileData"@,
        "inlineData"@ != "fileData"@,
        "name"@ != "args"@,
        "name"@ != "id"@,
        "name"@ != "response"@,
        "args"@ != "id"@,
        "response"@ != "id"@,
        "data"@ != "mimeType"@,
        "data"@ != "displayName"@,
        "mimeType"@ != "displayName"@,
        "fileUri"@ != "mimeType"@,
        "image"@ != "audio"@,
        "image"@ != "video"@,
        "audio"@ != "video"@,
{
    reveal_strlit("text");
    assert("text"@.len() == 4);
    reveal_strlit("thought");
    assert("thought"@.len() == 7);
    reveal_strlit("thoughtSignature");
    assert("thoughtSignature"@.len() == 16);
    reveal_strlit("functionCall");
    assert("functionCall"@.len() == 12);
    reveal_strlit("functionResponse");
    assert("functionResponse"@.len() == 16);
    reveal_strlit("inlineData");
    assert("inlineData"@.len() == 10);
    reveal_strlit("fileData");
    assert("fileData"@.len() == 8);
    reveal_strlit("name");
    assert("name"@.len() == 4);
    reveal_strlit("args");
    assert("args"@.len() == 4);
    reveal_strlit("id");
    assert("id"@.len() == 2);
    reveal_strlit("response");
    assert("response"@.len() == 8);
    reveal_strlit("data");
    assert("data"@.len() == 4);
    reveal_strlit("mimeType");
    assert("mimeType"@.len() == 8);
    reveal_strlit("displayName");
    assert("displayName"@.len() == 11);
    reveal_strlit("fileUri");
    assert("fileUri"@.len() == 7);
    reveal_strlit("image");
    assert("image"@.len() == 5);
    reveal_strlit("audio");
    assert("audio"@.len() == 5);
    reveal_strlit("video");
    assert("video"@.len() == 5);
    assert("name"@[0] != "args"@[0]);
    assert("image"@[0] != "audio"@[0]);
    assert("image"@[0] != "video"@[0]);
    assert("audio"@[0] != "video"@[0]);
}

/// What the names of the fields of requests differ by.
pub proof fn lemma_request_keys()
    ensures
        "model"@.len() == 5,
        "systemInstruction"@.len() == 17,
        "contents"@.len() == 8,
        "tools"@.len() == 5,
        "toolConfig"@.len() == 10,
        "generationConfig"@.len() == 16,
        "cachedContent"@.len() == 13,
        "labels"@.len() == 6,
        "safetySettings"@.len() == 14,
        "serviceTier"@.len() == 11,
        "store"@.len() == 5,
        "model"@[0] == 'm',
        "tools"@[0] == 't',
        "store"@[0] == 's',
{
    reveal_strlit("model");
    reveal_strlit("systemInstruction");
    reveal_strlit("contents");
    reveal_strlit("tools");
    reveal_strlit("toolConfig");
    reveal_strlit("generationConfig");
    reveal_strlit("cachedContent");
    reveal_strlit("labels");
    reveal_strlit("safetySettings");
    reveal_strlit("serviceTier");
    reveal_strlit("store");
}

/// What the names of the fields of `generationConfig` differ by.
pub proof fn lemma_generation_keys()
    ensures
        "temperature"@.len() == 11,
        "topP"@.len() == 4,
        "topK"@.len() == 4,
        "maxOutputTokens"@.len() == 15,
        "responseSchema"@.len() == 14,
        "responseJsonSchema"@.len() == 18,
        "responseMimeType"@.len() == 16,
        "topP"@[3] == 'P',
        "topK"@[3] == 'K',
{
    reveal_strlit("temperature");
    reveal_strlit("topP");
    reveal_strlit("topK");
    reveal_strlit("maxOutputTokens");
    reveal_strlit("responseSchema");
    reveal_strlit("responseJsonSchema");
    reveal_strlit("responseMimeType");
}

/// What the names of the fields and modes of tools differ by.
pub proof fn lemma_tool_keys()
    ensures
        "name"@.len() == 4,
        "description"@.len() == 11,
        "parameters"@.len() == 10,
        "parametersJsonSchema"@.len() == 20,
        "functionDeclarations"@.len() == 20,
        "functionCallingConfig"@.len() == 21,
        "mode"@.len() == 4,
        "allowedFunctionNames"@.len() == 20,
        "AUTO"@.len() == 4,
        "NONE"@.len() == 4,
        "ANY"@.len() == 3,
        "AUTO"@[0] == 'A',
        "NONE"@[0] == 'N',
{
    reveal_strlit("name");
    reveal_strlit("description");
    reveal_strlit("parameters");
    reveal_strlit("parametersJsonSchema");
    reveal_strlit("functionDeclarations");
    reveal_strlit("functionCallingConfig");
    reveal_strlit("mode");
    reveal_strlit("allowedFunctionNames");
    reveal_strlit("AUTO");
    reveal_strlit("NONE");
    reveal_strlit("ANY");
}

/// What the names of token counts differ by.
pub proof fn lemma_usage_keys()
    ensures
        "promptTokenCount"@.len() == 16,
        "candidatesTokenCount"@.len() == 20,
        "totalTokenCount"@.len() == 15,
        "cachedContentTokenCount"@.len() == 23,
        "thoughtsTokenCount"@.len() == 18,
{
    reveal_strlit("promptTokenCount");
    reveal_strlit("candidatesTokenCount");
    reveal_strlit("totalTokenCount");
    reveal_strlit("cachedContentTokenCount");
    reveal_strlit("thoughtsTokenCount");
}

/// What the names of the fields of responses differ by.
pub proof fn lemma_response_keys()
    ensures
        "candidates"@.len() == 10,
        "usageMetadata"@.len() == 13,
        "responseId"@.len() == 10,
        "modelVersion"@.len() == 12,
        "candidates"@[0] == 'c',
        "responseId"@[0] == 'r',
{
    reveal_strlit("candidates");
    reveal_strlit("usageMetadata");
    reveal_strlit("responseId");
    reveal_strlit("modelVersion");
}

/// What finish reasons differ by.
pub proof fn lemma_reasons()
    ensures
        "STOP"@.len() == 4,
        "MAX_TOKENS"@.len() == 10,
        "OTHER"@.len() == 5,
        "SAFETY"@.len() == 6,
        "RECITATION"@.len() == 10,
        "BLOCKLIST"@.len() == 9,
        "PROHIBITED_CONTENT"@.len() == 18,
        "SPII"@.len() == 4,
        "IMAGE_SAFETY"@.len() == 12,
        "IMAGE_PROHIBITED_CONTENT"@.len() == 24,
        "IMAGE_RECITATION"@.len() == 16,
{
    reveal_strlit("STOP");
    reveal_strlit("MAX_TOKENS");
    reveal_strlit("OTHER");
    reveal_strlit("SAFETY");
    reveal_strlit("RECITATION");
    reveal_strlit("BLOCKLIST");
    reveal_strlit("PROHIBITED_CONTENT");
    reveal_strlit("SPII");
    reveal_strlit("IMAGE_SAFETY");
    reveal_strlit("IMAGE_PROHIBITED_CONTENT");
    reveal_strlit("IMAGE_RECITATION");
}

/// What the names of the fields of candidates and contents differ by.
pub proof fn lemma_candidate_keys()
    ensures
        "content"@.len() == 7,
        "finishReason"@.len() == 12,
        "index"@.len() == 5,
        "role"@.len() == 4,
        "parts"@.len() == 5,
        "user"@.len() == 4,
        "model"@.len() == 5,
        "index"@[0] == 'i',
        "parts"@[0] == 'p',
        "model"@[0] == 'm',
{
    reveal_strlit("content");
    reveal_strlit("finishReason");
    reveal_strlit("index");
    reveal_strlit("role");
    reveal_strlit("parts");
    reveal_strlit("user");
    reveal_strlit("model");
}

} // verus!
