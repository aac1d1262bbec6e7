[package]
name = "terminal_ai_ops"
version = "0.1.0"
edition = "2021"
publish = false

[dependencies]
vt100 = "=0.18.1"
bytes = "=1.12.1"
futures = "=0.3.34"
tokio = { version = "=1.54.1", features = ["full"] }
crossterm = { version = "=0.29.0", features = ["event-stream"] }
ratatui = "=0.30.2"
tui-term = "=0.3.4"
throbber-widgets-tui = "=0.11.1"
portable-pty = "=0.8.1"
async-openai = { version = "=0.42.2", features = ["chat-completion"] }
tracing = "=0.1.44"
tracing-appender = "=0.2.5"
tracing-subscriber = "=0.3.23"
