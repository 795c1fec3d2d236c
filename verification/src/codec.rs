use vstd::prelude::*;

use crate::columnar::RecordBatchHandle;
use crate::types::CubeError;

verus! {

/// The IPC stream encoding of a batch sequence. Writing is deterministic in
/// the batches alone, so its result can be named; what the bytes hold is
/// arrow's concern.
pub uninterp spec fn ipc_stream(batches: Seq<RecordBatchHandle>) -> Seq<u8>;

/// A sequence of record batches as one self-describing byte buffer in the
/// columnar IPC stream format.
pub struct SerializedRecordBatchStream {
    record_batch_file: Vec<u8>,
}

impl View for SerializedRecordBatchStream {
    type V = Seq<u8>;

    closed spec fn view(&self) -> Seq<u8> {
        self.record_batch_file@
    }
}

impl SerializedRecordBatchStream {
    /// Wraps an already-encoded stream, as received from a worker.
    pub fn from_bytes(record_batch_file: Vec<u8>) -> (r: SerializedRecordBatchStream)
        ensures
            r@ == record_batch_file@,
    {
        SerializedRecordBatchStream { record_batch_file }
    }

    pub fn bytes(&self) -> (r: &Vec<u8>)
        ensures
            r@ == self@,
    {
        &self.record_batch_file
    }

    /// Relies on arrow's ipc StreamWriter: the schema of the first batch,
    /// then each batch, encoded as one finished IPC stream; the encoding is a
    /// function of the batches alone.
    #[verifier::external_body]
    pub fn write(record_batches: Vec<RecordBatchHandle>) -> (r: Result<
        SerializedRecordBatchStream,
        CubeError,
    >)
        requires
            record_batches@.len() > 0,
        ensures
            r matches Ok(s) ==> s@ == ipc_stream(record_batches@),
    {
        let schema = record_batches[0].inner.schema();
        let mut writer = arrow::ipc::writer::StreamWriter::try_new(Vec::new(), &schema).map_err(
            |e| CubeError::internal(format!("{}", e)),
        )?;
        for batch in record_batches.iter() {
            writer.write(&batch.inner).map_err(|e| CubeError::internal(format!("{}", e)))?;
        }
        writer.finish().map_err(|e| CubeError::internal(format!("{}", e)))?;
        let buf = writer.into_inner().map_err(|e| CubeError::internal(format!("{}", e)))?;
        Ok(SerializedRecordBatchStream { record_batch_file: buf })
    }

    /// Relies on arrow's ipc StreamReader: the batches of the stream, in
    /// their written order. Restoring the written contents is arrow's
    /// round-trip guarantee; it is exercised by tests, since stating it would
    /// equate separately allocated batch values.
    #[verifier::external_body]
    pub fn read(self) -> (r: Result<Vec<RecordBatchHandle>, CubeError>) {
        let cursor = std::io::Cursor::new(self.record_batch_file);
        let reader = arrow::ipc::reader::StreamReader::try_new(cursor, None).map_err(
            |e| CubeError::internal(format!("{}", e)),
        )?;
        let mut out = Vec::new();
        for batch in reader {
            let b = batch.map_err(|e| CubeError::internal(format!("{}", e)))?;
            out.push(RecordBatchHandle { inner: b });
        }
        Ok(out)
    }
}

} // verus!
