//! A network flow sensor: one structured event per TCP connection, with the
//! process behind it, its quality, its retransmits told apart by reason, what
//! its TLS library calls showed, and the causal chain that it belongs to.
//!
//! The library decides; whoever uses it reads and writes. On the kernel side,
//! probes read sockets, tables, buffers and the clock, hand over what they
//! read, and do what they are told to do next. In userspace, a daemon reads
//! events from a ring buffer and files from the proc file system, and prints
//! what it is given.
//!
//! - Events and table rows: [`common`], [`maps`], [`wire`].
//! - Kernel side: [`kread`], [`sock`], [`tcp_lifecycle`], [`tcp_quality`],
//!   [`retransmit`], [`tls`] with [`client_hello`] and [`http`], [`causal`].
//! - What holds of a connection from open to close: [`flow_laws`],
//!   [`row_laws`], [`report_laws`]; of what is read and parsed:
//!   [`kernel_laws`], [`parser_laws`], [`layout_laws`].
//! - Userspace: [`loader`], [`filter`], [`enricher`] with [`k8s`],
//!   [`tls_attach`], and the output in [`printer`] and [`json`].
//! - What holds of userspace: [`userspace_laws`], [`attach_laws`]; of the
//!   output: [`output_laws`], [`pretty_laws`].
//! - Bytes and text: [`bytes`], [`field_text`], [`text`], [`ascii`],
//!   [`numbers`], [`quantity`]; what holds of them: [`text_laws`],
//!   [`quantity_laws`].
pub mod ascii;
pub mod attach_laws;
pub mod bytes;
pub mod causal;
pub mod client_hello;
pub mod common;
pub mod enricher;
pub mod field_text;
pub mod filter;
pub mod flow_laws;
pub mod http;
pub mod json;
pub mod k8s;
pub mod kernel_laws;
pub mod kread;
pub mod layout_laws;
pub mod loader;
pub mod maps;
pub mod numbers;
pub mod output_laws;
pub mod parser_laws;
pub mod pretty_laws;
pub mod printer;
pub mod quantity;
pub mod quantity_laws;
pub mod report_laws;
pub mod retransmit;
pub mod row_laws;
pub mod sock;
pub mod tcp_lifecycle;
pub mod tcp_quality;
pub mod text;
pub mod text_laws;
pub mod tls;
pub mod tls_attach;
pub mod userspace_laws;
pub mod wire;
