//! Verified decision logic of the sandboxed.sh control plane.
pub mod auth;
pub mod backend;
pub mod bg_autoresume;
pub mod clock;
pub mod codex;
pub mod codex_app_server;
pub mod gemini;
pub mod github;
pub mod github_connect;
pub mod ids;
pub mod json;
pub mod json_members;
pub mod json_text;
pub mod metadata_llm;
pub mod native_loop;
pub mod orchestrator;
pub mod orchestrator_tools;
pub mod password;
pub mod spark;
pub mod taskmap;
pub mod telegram;
pub mod telegram_delivery;
pub mod telegram_html;
pub mod telegram_send;
pub mod telegram_stream;
pub mod text;
pub mod textmap;
pub mod token;
