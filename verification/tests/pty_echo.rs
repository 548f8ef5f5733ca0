//! End-to-end test against a real pseudo-terminal: spawn `cat`, write through
//! the master's writer, drive the reader pipeline with the bytes that come
//! back, and observe the echo through `lito_read_pty`.

use lito_kernel::{
    lito_read_pty, lito_spawn, lito_write_pty, pipeline_step, ChunkOutcome, KernelState,
    PipelineAction, TransportOutcome,
};
use portable_pty::{CommandBuilder, NativePtySystem, PtySize, PtySystem};
use std::io::{Read, Write};

/// Pulls chunks from the PTY master into the session until its buffer
/// contains `needle`, collecting the events the pipeline emits.
fn drain_until(
    state: &mut KernelState,
    id: &String,
    reader: &mut Box<dyn Read + Send>,
    needle: &str,
    events: &mut Vec<String>,
) {
    for _ in 0..64 {
        if lito_read_pty(state, id).unwrap().contains(needle) {
            return;
        }
        let mut buf = [0u8; 1024];
        let n = reader.read(&mut buf).expect("reading from the PTY master failed");
        let action = pipeline_step(state, id, ChunkOutcome::Data(buf[..n].to_vec())).unwrap();
        match action {
            PipelineAction::Emit(event) => events.push(event),
            PipelineAction::Stop => return,
            PipelineAction::Continue => {}
        }
    }
}

#[test]
fn test_spawn_write_read_event_cycle() {
    println!("Starting test...");
    let pty_system = NativePtySystem::default();
    let pair = pty_system
        .openpty(PtySize { rows: 24, cols: 80, pixel_width: 0, pixel_height: 0 })
        .expect("openpty failed");

    println!("Spawning cat...");
    let cmd = CommandBuilder::new("cat");
    let _child = pair.slave.spawn_command(cmd).expect("spawning cat failed");
    let mut reader = pair.master.try_clone_reader().expect("cloning the reader failed");
    let mut writer = pair.master.take_writer().expect("taking the writer failed");

    let mut state = KernelState::new();
    let spawn_result = lito_spawn(&mut state, TransportOutcome::Ready);
    assert!(spawn_result.is_ok());
    let process_id = spawn_result.unwrap();
    println!("Extracted Process ID: {}", process_id);

    println!("Writing to PTY...");
    let write_result = lito_write_pty(&state, &process_id);
    assert!(write_result.is_ok());
    writer.write_all("Ciao Kernel!\n".as_bytes()).unwrap();

    println!("Waiting for echo event...");
    let mut events: Vec<String> = Vec::new();
    drain_until(&mut state, &process_id, &mut reader, "Ciao Kernel!", &mut events);
    assert!(!events.is_empty());
    let event_str = &events[0];
    println!("Received event: {}", event_str);
    assert!(event_str.contains("pty-output"));
    assert!(event_str.contains(&process_id));

    println!("Reading from PTY...");
    let read_result = lito_read_pty(&state, &process_id);
    assert!(read_result.is_ok());
    let output = read_result.unwrap();
    println!("Output: '{}'", output);
    assert!(
        output.contains("Ciao Kernel!"),
        "Output buffer did not contain the expected text. Got: '{}'",
        output
    );

    println!("Writing second time...");
    let write_result2 = lito_write_pty(&state, &process_id);
    assert!(write_result2.is_ok(), "Second write failed, writer might have been taken and dropped!");
    writer.write_all("Seconda riga!\n".as_bytes()).unwrap();

    drain_until(&mut state, &process_id, &mut reader, "Seconda riga!", &mut events);
    let output2 = lito_read_pty(&state, &process_id).unwrap();
    println!("Output after second write: '{}'", output2);
    assert!(output2.contains("Ciao Kernel!"));
    assert!(output2.contains("Seconda riga!"), "Second write output not found!");

    println!("Test finished successfully!");
}
