[package]
name = "clodwyr_in_space"
version = "0.1.0"
edition = "2021"
publish = false

[dependencies]
wasm-bindgen = "0.2"
js-sys = "0.3"
image = { version = "0.25", default-features = false, features = ["png"] }

[dependencies.web-sys]
version = "0.3"
features = [
    "Window", "Document", "Element", "HtmlElement", "HtmlCanvasElement",
    "CanvasRenderingContext2d", "HtmlImageElement", "KeyboardEvent", "Event",
    "EventTarget", "CssStyleDeclaration", "Storage", "console", "Node",
    "AudioContext", "BaseAudioContext", "AudioBuffer", "AudioBufferSourceNode",
    "AudioNode", "AudioScheduledSourceNode", "AudioParam", "GainNode",
    "OscillatorNode", "OscillatorType", "AudioDestinationNode",
    "WebGlRenderingContext", "WebGlBuffer", "WebGlProgram", "WebGlShader",
    "WebGlTexture", "WebGlUniformLocation",
]
